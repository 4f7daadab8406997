use vstd::prelude::*;

use crate::strnum::{
    decimal_of, decimal_string, hex_of, is_decimal_digit, is_hex_char, lemma_decimal_digits,
    lemma_decimal_len_six, lemma_hex_digits, lemma_hex_len, str_eq, to_hex,
};
use crate::sync_models::{
    pending_views, PendingSyncData, PendingSyncDataV, SyncSession, SyncSessionV,
};
use crate::trusted::{fresh_uuid, now_millis, random_in_range, sha256_bytes, sha256_of};

verus! {

/// Why an authentication attempt was turned away.
#[derive(Clone, Copy, Debug, PartialEq, Eq, Structural)]
pub enum AuthError {
    InvalidPin,
    ExpiredPin,
    Unauthorized,
}

/// Mathematical model of the outcome of one authentication attempt.
pub enum AuthOutcomeV {
    Granted { token: Seq<char>, expires_in: int },
    ExpiredPin,
    InvalidPin,
}

/// Whether some session of `s` is active under the PIN `pin`.
pub open spec fn has_active_pin(s: Seq<SyncSessionV>, pin: Seq<char>) -> bool {
    exists|i: int| 0 <= i < s.len() && s[i].pin == pin && s[i].is_active
}

/// The index of the active session under `pin` (unique under
/// `SyncServerState::wf`).
pub open spec fn active_pin_index(s: Seq<SyncSessionV>, pin: Seq<char>) -> int {
    choose|i: int| 0 <= i < s.len() && s[i].pin == pin && s[i].is_active
}

/// Whether `sess` makes `token` valid at time `now`: the token was issued on
/// this session, the session is active, and its window has not closed.
pub open spec fn token_matches(sess: SyncSessionV, token: Seq<char>, now: int) -> bool {
    sess.token == Some(token) && sess.is_active && sess.expires_at > now
}

/// The session a fresh server run opens: active for ten minutes from `now`,
/// no token issued, no device bound.
pub open spec fn fresh_session_view(pin: Seq<char>, now: int) -> SyncSessionV {
    SyncSessionV {
        pin: pin,
        token: None,
        created_at: now,
        expires_at: now + 600000,
        is_active: true,
        device_name: None,
    }
}

/// One authentication step over the session list: an unknown or inactive PIN
/// is rejected; a PIN past its window deactivates its session and is
/// rejected; otherwise a token is issued once and then handed back unchanged
/// on every later attempt.
pub open spec fn auth_step(
    s: Seq<SyncSessionV>,
    pin: Seq<char>,
    device: Seq<char>,
    now: int,
    fresh: Seq<char>,
) -> (Seq<SyncSessionV>, AuthOutcomeV) {
    if !has_active_pin(s, pin) {
        (s, AuthOutcomeV::InvalidPin)
    } else {
        let i = active_pin_index(s, pin);
        let sess = s[i];
        if sess.expires_at < now {
            (s.update(i, SyncSessionV { is_active: false, ..sess }), AuthOutcomeV::ExpiredPin)
        } else if sess.token is None {
            (
                s.update(
                    i,
                    SyncSessionV { token: Some(fresh), device_name: Some(device), ..sess },
                ),
                AuthOutcomeV::Granted { token: fresh, expires_in: (sess.expires_at - now) / 1000 },
            )
        } else {
            (
                s,
                AuthOutcomeV::Granted {
                    token: sess.token->Some_0,
                    expires_in: (sess.expires_at - now) / 1000,
                },
            )
        }
    }
}

/// Milliseconds left of the fifteen-minute server lifetime that began at
/// `started`, floored at zero.
pub open spec fn remaining_ms(started: int, now: int) -> int {
    if now - started < 900000 {
        900000 - (now - started)
    } else {
        0
    }
}

/// Whether some pending batch of `s` carries the identifier `id`.
pub open spec fn has_pending(s: Seq<PendingSyncDataV>, id: Seq<char>) -> bool {
    exists|i: int| 0 <= i < s.len() && s[i].id == id
}

/// The index of the pending batch carrying `id` (unique under
/// `SyncServerState::wf`).
pub open spec fn pending_index(s: Seq<PendingSyncDataV>, id: Seq<char>) -> int {
    choose|i: int| 0 <= i < s.len() && s[i].id == id
}

/// Mathematical model of the whole server state.
pub struct SyncServerStateV {
    pub sessions: Seq<SyncSessionV>,
    pub pending: Seq<PendingSyncDataV>,
    pub server_running: bool,
    pub port: u16,
    pub started_at: Option<int>,
}

/// The state one sync-server run owns: the pairing sessions, the batches
/// waiting for approval, the running flag and the run's start time.
pub struct SyncServerState {
    pub sessions: Vec<SyncSession>,
    pub pending_data: Vec<PendingSyncData>,
    pub server_running: bool,
    pub port: u16,
    pub started_at: Option<u64>,
}

impl View for SyncServerState {
    type V = SyncServerStateV;

    open spec fn view(&self) -> SyncServerStateV {
        SyncServerStateV {
            sessions: crate::sync_models::session_views(self.sessions@),
            pending: pending_views(self.pending_data@),
            server_running: self.server_running,
            port: self.port,
            started_at: match self.started_at {
                Some(t) => Some(t as int),
                None => None,
            },
        }
    }
}

impl SyncServerState {
    /// The state's invariant: session PINs and pending batch identifiers are
    /// unique.
    pub open spec fn wf(&self) -> bool {
        &&& forall|i: int, j: int|
            0 <= i < j < self@.sessions.len() ==> self@.sessions[i].pin != self@.sessions[j].pin
        &&& forall|i: int, j: int|
            0 <= i < j < self@.pending.len() ==> self@.pending[i].id != self@.pending[j].id
    }

    /// A stopped server state on the given port.
    pub fn new(port: u16) -> (r: Self)
        ensures
            r@.sessions == Seq::<SyncSessionV>::empty(),
            r@.pending == Seq::<PendingSyncDataV>::empty(),
            !r@.server_running,
            r@.port == port,
            r@.started_at is None,
            r.wf(),
    {
        let r = SyncServerState {
            sessions: Vec::new(),
            pending_data: Vec::new(),
            server_running: false,
            port,
            started_at: None,
        };
        proof {
            assert(r@.sessions =~= Seq::<SyncSessionV>::empty());
            assert(r@.pending =~= Seq::<PendingSyncDataV>::empty());
        }
        r
    }

    /// A uniformly random six-digit pairing PIN.
    pub fn generate_pin() -> (r: String)
        ensures
            r@.len() == 6,
            forall|i: int| 0 <= i < r@.len() ==> is_decimal_digit(#[trigger] r@[i]),
            exists|n: nat| 100000 <= n <= 999999 && r@ == #[trigger] decimal_of(n),
    {
        let n = random_in_range(100000, 1000000);
        let s = decimal_string(n);
        proof {
            lemma_decimal_len_six(n as nat);
            lemma_decimal_digits(n as nat);
            assert(100000 <= n as int <= 999999 && s@ == decimal_of(n as nat));
        }
        s
    }

    /// The seed string a token is hashed from: the PIN, the issuing
    /// millisecond, and a fresh identifier, joined by dashes.
    pub open spec fn token_seed(pin: Seq<char>, millis: nat, uid: Seq<char>) -> Seq<char> {
        pin + seq!['-'] + decimal_of(millis) + seq!['-'] + uid
    }

    /// The capability token derived from the given parts: the hex-encoded
    /// SHA-256 digest of the seed string.
    pub fn token_from_parts(pin: &str, millis: u64, uid: &str) -> (r: String)
        ensures
            r@ == hex_of(sha256_of(Self::token_seed(pin@, millis as nat, uid@))),
            r@.len() == 64,
    {
        let mut seed = String::new();
        seed.append(pin);
        seed.append("-");
        let ts = decimal_string(millis);
        seed.append(ts.as_str());
        seed.append("-");
        seed.append(uid);
        proof {
            reveal_strlit("-");
            assert(seed@ =~= Self::token_seed(pin@, millis as nat, uid@));
        }
        let digest = sha256_bytes(seed.as_str());
        let r = to_hex(&digest);
        proof {
            lemma_hex_len(digest@);
        }
        r
    }

    /// A fresh capability token for `pin`: a one-way hash over the PIN, the
    /// current millisecond and a fresh random identifier. Its unforgeability
    /// rests on the randomness of those inputs, not on a shared secret.
    pub fn generate_token(pin: &str) -> (r: String)
        ensures
            r@.len() == 64,
            forall|i: int| 0 <= i < r@.len() ==> is_hex_char(#[trigger] r@[i]),
    {
        let millis = now_millis();
        let uid = fresh_uuid();
        let r = Self::token_from_parts(pin, millis, uid.as_str());
        proof {
            lemma_hex_digits(sha256_of(Self::token_seed(pin@, millis as nat, uid@)));
        }
        r
    }

    /// The position of the active session under `pin`, if any.
    fn find_active_pin(&self, pin: &str) -> (r: Option<usize>)
        ensures
            match r {
                Some(i) => i < self@.sessions.len() && self@.sessions[i as int].pin == pin@
                    && self@.sessions[i as int].is_active && active_pin_index(self@.sessions, pin@)
                    < self@.sessions.len() && has_active_pin(self@.sessions, pin@),
                None => !has_active_pin(self@.sessions, pin@),
            },
    {
        let mut i: usize = 0;
        while i < self.sessions.len()
            invariant
                i <= self.sessions.len(),
                self@.sessions.len() == self.sessions.len(),
                forall|j: int|
                    0 <= j < i ==> !(self@.sessions[j].pin == pin@ && self@.sessions[j].is_active),
            decreases self.sessions.len() - i,
        {
            if self.sessions[i].is_active && str_eq(self.sessions[i].pin.as_str(), pin) {
                return Some(i);
            }
            i = i + 1;
        }
        None
    }

    /// One authentication attempt at time `now`, issuing `fresh_token` if
    /// this is the PIN's first successful authentication. Behaves exactly as
    /// `auth_step` describes; on success the token and the seconds left of
    /// the PIN's window come back.
    pub fn authenticate(&mut self, pin: &str, device_name: &str, now: u64, fresh_token: String)
        -> (r: Result<(String, u64), AuthError>)
        requires
            old(self).wf(),
        ensures
            final(self).wf(),
            final(self)@.pending == old(self)@.pending,
            final(self)@.server_running == old(self)@.server_running,
            final(self)@.port == old(self)@.port,
            final(self)@.started_at == old(self)@.started_at,
            final(self)@.sessions == auth_step(
                old(self)@.sessions,
                pin@,
                device_name@,
                now as int,
                fresh_token@,
            ).0,
            match r {
                Ok(te) => auth_step(
                    old(self)@.sessions,
                    pin@,
                    device_name@,
                    now as int,
                    fresh_token@,
                ).1 == (AuthOutcomeV::Granted { token: te.0@, expires_in: te.1 as int }),
                Err(e) => (e == AuthError::ExpiredPin && auth_step(
                    old(self)@.sessions,
                    pin@,
                    device_name@,
                    now as int,
                    fresh_token@,
                ).1 == AuthOutcomeV::ExpiredPin) || (e == AuthError::InvalidPin && auth_step(
                    old(self)@.sessions,
                    pin@,
                    device_name@,
                    now as int,
                    fresh_token@,
                ).1 == AuthOutcomeV::InvalidPin),
            },
    {
        let ghost sessions0 = self@.sessions;
        match self.find_active_pin(pin) {
            None => Err(AuthError::InvalidPin),
            Some(i) => {
                proof {
                    let j = active_pin_index(sessions0, pin@);
                    assert(sessions0[j].pin == pin@ && sessions0[j].is_active);
                    assert(j == i as int);
                }
                let mut sess = self.sessions.remove(i);
                let ghost before = sess@;
                if sess.expires_at < now {
                    sess.is_active = false;
                    let ghost after = sess@;
                    self.sessions.insert(i, sess);
                    proof {
                        assert(after == (SyncSessionV { is_active: false, ..before }));
                        assert(crate::sync_models::session_views(self.sessions@)
                            =~= sessions0.update(i as int, after));
                        assert forall|x: int, y: int|
                            0 <= x < y < self@.sessions.len() implies self@.sessions[x].pin
                            != self@.sessions[y].pin by {
                            assert(sessions0[x].pin != sessions0[y].pin);
                        }
                    }
                    proof {
                        assert forall|x: int, y: int|
                            0 <= x < y < self@.pending.len() implies self@.pending[x].id
                            != self@.pending[y].id by {
                            assert(old(self)@.pending[x].id != old(self)@.pending[y].id);
                        }
                    }
                    Err(AuthError::ExpiredPin)
                } else {
                    let expires_in = (sess.expires_at - now) / 1000;
                    let issued: String;
                    let ghost had_token = before.token;
                    match &sess.token {
                        None => {
                            sess.token = Some(fresh_token);
                            sess.device_name = Some(device_name.to_owned());
                            issued = match &sess.token {
                                Some(t) => t.clone(),
                                None => String::new(),
                            };
                        },
                        Some(t) => {
                            issued = t.clone();
                        },
                    }
                    let ghost after = sess@;
                    self.sessions.insert(i, sess);
                    proof {
                        if had_token is None {
                            assert(after == (SyncSessionV {
                                token: Some(fresh_token@),
                                device_name: Some(device_name@),
                                ..before
                            }));
                        } else {
                            assert(after == before);
                        }
                        assert(crate::sync_models::session_views(self.sessions@)
                            =~= sessions0.update(i as int, after));
                        if had_token is Some {
                            assert(sessions0.update(i as int, after) =~= sessions0);
                        }
                        assert forall|x: int, y: int|
                            0 <= x < y < self@.sessions.len() implies self@.sessions[x].pin
                            != self@.sessions[y].pin by {
                            assert(sessions0[x].pin != sessions0[y].pin);
                        }
                    }
                    proof {
                        assert forall|x: int, y: int|
                            0 <= x < y < self@.pending.len() implies self@.pending[x].id
                            != self@.pending[y].id by {
                            assert(old(self)@.pending[x].id != old(self)@.pending[y].id);
                        }
                    }
                    Ok((issued, expires_in))
                }
            },
        }
    }

    /// The session that makes `token` valid at time `now`: one that issued
    /// this very token, is still active, and has not expired. None when no
    /// session qualifies — an unknown token, an inactive session's token, or
    /// an expired session's token.
    pub fn validate_token_at(&self, token: &str, now: u64) -> (r: Option<SyncSession>)
        ensures
            match r {
                Some(sess) => exists|i: int|
                    0 <= i < self@.sessions.len() && self@.sessions[i] == sess@ && token_matches(
                        #[trigger] self@.sessions[i],
                        token@,
                        now as int,
                    ),
                None => forall|i: int|
                    0 <= i < self@.sessions.len() ==> !token_matches(
                        #[trigger] self@.sessions[i],
                        token@,
                        now as int,
                    ),
            },
    {
        let mut i: usize = 0;
        while i < self.sessions.len()
            invariant
                i <= self.sessions.len(),
                self@.sessions.len() == self.sessions.len(),
                forall|j: int|
                    0 <= j < i ==> !token_matches(#[trigger] self@.sessions[j], token@, now as int),
            decreases self.sessions.len() - i,
        {
            let sess = &self.sessions[i];
            let token_hit = match &sess.token {
                Some(t) => str_eq(t.as_str(), token),
                None => false,
            };
            if token_hit && sess.is_active && sess.expires_at > now {
                return Some(sess.clone());
            }
            proof {
                assert(!token_matches(self@.sessions[i as int], token@, now as int));
            }
            i = i + 1;
        }
        None
    }

    /// The session that makes `token` valid right now.
    pub fn validate_token(&self, token: &str) -> (r: Option<SyncSession>)
        ensures
            r is Some ==> exists|i: int|
                0 <= i < self@.sessions.len() && #[trigger] self@.sessions[i] == r->Some_0@
                    && self@.sessions[i].token == Some(token@) && self@.sessions[i].is_active,
    {
        let now = now_millis();
        self.validate_token_at(token, now)
    }

    /// Milliseconds left of the fifteen-minute server lifetime; none when no
    /// run is under way.
    pub fn get_remaining_time_at(&self, now: u64) -> (r: Option<u64>)
        requires
            match self@.started_at {
                Some(t) => t <= now as int,
                None => true,
            },
        ensures
            match self@.started_at {
                Some(t) => r matches Some(v) && v as int == remaining_ms(t, now as int) && v
                    <= 900000,
                None => r is None,
            },
    {
        match self.started_at {
            Some(start) => {
                let elapsed = now - start;
                if elapsed < 15 * 60 * 1000 {
                    Some(15 * 60 * 1000 - elapsed)
                } else {
                    Some(0)
                }
            },
            None => None,
        }
    }

    /// Milliseconds left of the server lifetime, by the current clock.
    pub fn get_remaining_time(&self) -> (r: Option<u64>)
        ensures
            r is Some <==> self@.started_at is Some,
            r matches Some(v) ==> v <= 900000,
    {
        let now = now_millis();
        match self.started_at {
            Some(start) => {
                if now <= start {
                    return Some(15 * 60 * 1000);
                }
                let elapsed = now - start;
                if elapsed < 15 * 60 * 1000 {
                    Some(15 * 60 * 1000 - elapsed)
                } else {
                    Some(0)
                }
            },
            None => None,
        }
    }

    /// Begins a fresh run at time `now`: exactly one session, under `pin`,
    /// valid for ten minutes; no pending batches; the running flag set and
    /// the start time recorded.
    pub fn start(&mut self, pin: String, now: u64)
        requires
            now + 600000 <= u64::MAX,
        ensures
            final(self).wf(),
            final(self)@.sessions == seq![fresh_session_view(pin@, now as int)],
            final(self)@.pending == Seq::<PendingSyncDataV>::empty(),
            final(self)@.server_running,
            final(self)@.started_at == Some(now as int),
            final(self)@.port == old(self)@.port,
    {
        let session = SyncSession {
            pin,
            token: None,
            created_at: now,
            expires_at: now + 600000,
            is_active: true,
            device_name: None,
        };
        let mut sessions: Vec<SyncSession> = Vec::new();
        sessions.push(session);
        self.sessions = sessions;
        self.pending_data = Vec::new();
        self.server_running = true;
        self.started_at = Some(now);
        proof {
            assert(self@.sessions =~= seq![fresh_session_view(self.sessions[0].pin@, now as int)]);
            assert(self@.pending =~= Seq::<PendingSyncDataV>::empty());
        }
    }

    /// An explicit stop: sessions and pending batches cleared, the running
    /// flag and the start time dropped. Safe to invoke on any state, any
    /// number of times — the terminal state is always the same.
    pub fn stop(&mut self)
        ensures
            final(self).wf(),
            final(self)@.sessions == Seq::<SyncSessionV>::empty(),
            final(self)@.pending == Seq::<PendingSyncDataV>::empty(),
            !final(self)@.server_running,
            final(self)@.started_at is None,
            final(self)@.port == old(self)@.port,
    {
        self.sessions = Vec::new();
        self.pending_data = Vec::new();
        self.server_running = false;
        self.started_at = None;
        proof {
            assert(self@.sessions =~= Seq::<SyncSessionV>::empty());
            assert(self@.pending =~= Seq::<PendingSyncDataV>::empty());
        }
    }

    /// The watchdog's shutdown: the same clearing as `stop`, except that the
    /// recorded start time is kept. Also safe to invoke more than once.
    pub fn shutdown_auto(&mut self)
        ensures
            final(self).wf(),
            final(self)@.sessions == Seq::<SyncSessionV>::empty(),
            final(self)@.pending == Seq::<PendingSyncDataV>::empty(),
            !final(self)@.server_running,
            final(self)@.started_at == old(self)@.started_at,
            final(self)@.port == old(self)@.port,
    {
        self.sessions = Vec::new();
        self.pending_data = Vec::new();
        self.server_running = false;
        proof {
            assert(self@.sessions =~= Seq::<SyncSessionV>::empty());
            assert(self@.pending =~= Seq::<PendingSyncDataV>::empty());
        }
    }

    /// The position of the pending batch carrying `id`, if any.
    fn find_pending(&self, id: &str) -> (r: Option<usize>)
        ensures
            match r {
                Some(i) => i < self@.pending.len() && self@.pending[i as int].id == id@
                    && pending_index(self@.pending, id@) < self@.pending.len(),
                None => !has_pending(self@.pending, id@),
            },
    {
        let mut i: usize = 0;
        while i < self.pending_data.len()
            invariant
                i <= self.pending_data.len(),
                self@.pending.len() == self.pending_data.len(),
                forall|j: int| 0 <= j < i ==> self@.pending[j].id != id@,
            decreases self.pending_data.len() - i,
        {
            if str_eq(self.pending_data[i].id.as_str(), id) {
                proof {
                    assert(self@.pending[i as int].id == id@);
                    assert(has_pending(self@.pending, id@));
                    let j = pending_index(self@.pending, id@);
                    assert(0 <= j < self@.pending.len() && self@.pending[j].id == id@);
                }
                return Some(i);
            }
            i = i + 1;
        }
        None
    }

    /// Stores a received batch under its identifier; a batch already stored
    /// under the same identifier is replaced.
    pub fn enqueue_pending(&mut self, pending: PendingSyncData)
        requires
            old(self).wf(),
        ensures
            final(self).wf(),
            final(self)@.sessions == old(self)@.sessions,
            final(self)@.server_running == old(self)@.server_running,
            final(self)@.started_at == old(self)@.started_at,
            final(self)@.port == old(self)@.port,
            !has_pending(old(self)@.pending, pending@.id) ==> final(self)@.pending == old(
                self,
            )@.pending.push(pending@),
            has_pending(old(self)@.pending, pending@.id) ==> final(self)@.pending == old(
                self,
            )@.pending.update(pending_index(old(self)@.pending, pending@.id), pending@),
    {
        let ghost pv = pending@;
        match self.find_pending(pending.id.as_str()) {
            None => {
                let ghost prev = self.pending_data@;
                self.pending_data.push(pending);
                proof {
                    assert forall|j: int|
                        0 <= j < prev.len() + 1 implies pending_views(self.pending_data@)[j]
                        == pending_views(prev).push(pv)[j] by {
                        if j < prev.len() {
                            assert(self.pending_data@[j] == prev[j]);
                            assert(pending_views(prev)[j] == prev[j]@);
                        }
                    }
                    assert(pending_views(self.pending_data@) =~= pending_views(prev).push(pv));
                }
            },
            Some(i) => {
                proof {
                    let j = pending_index(old(self)@.pending, pv.id);
                    assert(old(self)@.pending[j].id == pv.id);
                    assert(j == i as int);
                }
                self.pending_data.remove(i);
                self.pending_data.insert(i, pending);
                proof {
                    assert(pending_views(self.pending_data@) =~= pending_views(
                        old(self).pending_data@,
                    ).update(i as int, pv));
                    assert forall|x: int, y: int|
                        0 <= x < y < self@.pending.len() implies self@.pending[x].id
                        != self@.pending[y].id by {
                        assert(old(self)@.pending[x].id != old(self)@.pending[y].id);
                    }
                }
            },
        }
    }

    /// All pending batches, in arrival order.
    pub fn list_pending(&self) -> (r: Vec<PendingSyncData>)
        ensures
            pending_views(r@) == self@.pending,
    {
        let mut out: Vec<PendingSyncData> = Vec::new();
        let mut i: usize = 0;
        while i < self.pending_data.len()
            invariant
                i <= self.pending_data.len(),
                self@.pending.len() == self.pending_data.len(),
                pending_views(out@) =~= self@.pending.take(i as int),
            decreases self.pending_data.len() - i,
        {
            let x = self.pending_data[i].clone();
            let ghost xv = x@;
            let ghost prev = out@;
            out.push(x);
            proof {
                assert forall|j: int|
                    0 <= j < prev.len() + 1 implies pending_views(out@)[j] == pending_views(
                    prev,
                ).push(xv)[j] by {
                    if j < prev.len() {
                        assert(out@[j] == prev[j]);
                        assert(pending_views(prev)[j] == prev[j]@);
                    }
                }
                assert(pending_views(out@) =~= pending_views(prev).push(xv));
                assert(xv == self@.pending[i as int]);
                assert(pending_views(out@) =~= self@.pending.take(i as int + 1));
            }
            i = i + 1;
        }
        proof {
            assert(self@.pending.take(self.pending_data.len() as int) =~= self@.pending);
        }
        out
    }

    /// Removes and returns the pending batch carrying `sync_id`; fails if no
    /// batch carries it. Approval and rejection both consume the batch
    /// through this door.
    pub fn take_pending(&mut self, sync_id: &str) -> (r: Result<PendingSyncData, String>)
        requires
            old(self).wf(),
        ensures
            final(self).wf(),
            final(self)@.sessions == old(self)@.sessions,
            final(self)@.server_running == old(self)@.server_running,
            final(self)@.started_at == old(self)@.started_at,
            final(self)@.port == old(self)@.port,
            match r {
                Ok(p) => {
                    let i = pending_index(old(self)@.pending, sync_id@);
                    &&& has_pending(old(self)@.pending, sync_id@)
                    &&& p@ == old(self)@.pending[i]
                    &&& final(self)@.pending == old(self)@.pending.remove(i)
                },
                Err(_) => !has_pending(old(self)@.pending, sync_id@) && final(self)@ == old(
                    self,
                )@,
            },
    {
        match self.find_pending(sync_id) {
            None => Err("Sync data not found".to_owned()),
            Some(i) => {
                proof {
                    let j = pending_index(old(self)@.pending, sync_id@);
                    assert(old(self)@.pending[j].id == sync_id@);
                    assert(j == i as int);
                }
                let p = self.pending_data.remove(i);
                proof {
                    assert(pending_views(self.pending_data@) =~= pending_views(
                        old(self).pending_data@,
                    ).remove(i as int));
                }
                Ok(p)
            },
        }
    }

    /// The figures the status endpoint reports: the running flag, how many
    /// sessions are held, how many batches wait for approval.
    pub fn status(&self) -> (r: (bool, usize, usize))
        ensures
            r.0 == self@.server_running,
            r.1 == self@.sessions.len(),
            r.2 == self@.pending.len(),
    {
        (self.server_running, self.sessions.len(), self.pending_data.len())
    }
}

/// A session opened by a fresh run has no token yet, so no bearer token —
/// stale or otherwise — is valid against the new run until it authenticates
/// anew.
pub proof fn lemma_restart_invalidates_tokens(pin: Seq<char>, now: int, token: Seq<char>, at: int)
    ensures
        !token_matches(fresh_session_view(pin, now), token, at),
{
}

/// Authenticating twice against the same still-valid PIN hands back the very
/// same token: the second step returns the token the first step issued, and
/// leaves the sessions as the first step left them.
pub proof fn lemma_reauthenticate_same_token(
    s: Seq<SyncSessionV>,
    pin: Seq<char>,
    d1: Seq<char>,
    d2: Seq<char>,
    now1: int,
    now2: int,
    f1: Seq<char>,
    f2: Seq<char>,
)
    requires
        forall|i: int, j: int| 0 <= i < j < s.len() ==> s[i].pin != s[j].pin,
        has_active_pin(s, pin),
        s[active_pin_index(s, pin)].expires_at >= now1,
        s[active_pin_index(s, pin)].expires_at >= now2,
        s[active_pin_index(s, pin)].token is None,
    ensures
        ({
            let (s1, o1) = auth_step(s, pin, d1, now1, f1);
            let (s2, o2) = auth_step(s1, pin, d2, now2, f2);
            &&& o1 == (AuthOutcomeV::Granted {
                token: f1,
                expires_in: (s[active_pin_index(s, pin)].expires_at - now1) / 1000,
            })
            &&& o2 == (AuthOutcomeV::Granted {
                token: f1,
                expires_in: (s[active_pin_index(s, pin)].expires_at - now2) / 1000,
            })
            &&& s2 == s1
        }),
{
    let i = active_pin_index(s, pin);
    let (s1, o1) = auth_step(s, pin, d1, now1, f1);
    assert(s1 == s.update(i, SyncSessionV { token: Some(f1), device_name: Some(d1), ..s[i] }));
    assert(s1[i].pin == pin && s1[i].is_active);
    assert(has_active_pin(s1, pin));
    let i2 = active_pin_index(s1, pin);
    assert(s1[i2].pin == pin && s1[i2].is_active);
    assert forall|x: int, y: int| 0 <= x < y < s1.len() implies s1[x].pin != s1[y].pin by {
        assert(s[x].pin != s[y].pin);
    }
    assert(i2 == i);
    let (s2, o2) = auth_step(s1, pin, d2, now2, f2);
    assert(s1[i].token == Some(f1));
    assert(s2 == s1);
}

/// A PIN past its window is turned away as expired, and its session is
/// flipped inactive by that very attempt.
pub proof fn lemma_expired_pin_deactivates(
    s: Seq<SyncSessionV>,
    pin: Seq<char>,
    d: Seq<char>,
    now: int,
    f: Seq<char>,
)
    requires
        has_active_pin(s, pin),
        now > s[active_pin_index(s, pin)].expires_at,
    ensures
        ({
            let (s1, o) = auth_step(s, pin, d, now, f);
            &&& o == AuthOutcomeV::ExpiredPin
            &&& !s1[active_pin_index(s, pin)].is_active
        }),
{
}

} // verus!
