//! Keeping a Bluesky session: reuse a fresh one, refresh an expired one,
//! fall back to a stored refresh token, else log in again.
//!
//! The network calls and the token store are the caller's: it feeds each
//! outcome to [`SessionFlow::step`], which says what to do next.

use crate::postkit::model::{opt_view, TokenSet};
use crate::postkit::clock::unix_now;
use vstd::prelude::*;

verus! {

/// An access token is reused for 45 minutes (in milliseconds).
pub const ACCESS_JWT_TTL_MS: u64 = 2_700_000;

/// A refresh token is trusted for 80 days (in seconds), short of the
/// service's 90.
pub const REFRESH_JWT_TTL_SECS: i64 = 6_912_000;

/// A logged-in session; `created_ms` is when it was obtained, on the
/// caller's monotonic clock.
#[derive(Debug)]
pub struct Session {
    pub access_jwt: String,
    pub refresh_jwt: String,
    pub did: String,
    pub handle: String,
    pub created_ms: u64,
}

/// What the service returns when a session is created or refreshed.
#[derive(Debug)]
pub struct SessionResponse {
    pub access_jwt: String,
    pub refresh_jwt: String,
    pub did: String,
    pub handle: String,
}

/// A session as plain data: access token, refresh token, DID, handle and
/// creation time.
pub type SessionView = (Seq<char>, Seq<char>, Seq<char>, Seq<char>, u64);

pub open spec fn session_view(s: Session) -> SessionView {
    (s.access_jwt@, s.refresh_jwt@, s.did@, s.handle@, s.created_ms)
}

/// The session a response gives, obtained at `now_ms`.
pub open spec fn session_from(r: SessionResponse, now_ms: u64) -> SessionView {
    (r.access_jwt@, r.refresh_jwt@, r.did@, r.handle@, now_ms)
}

fn clone_session(s: &Session) -> (c: Session)
    ensures
        session_view(c) == session_view(*s),
{
    Session {
        access_jwt: s.access_jwt.clone(),
        refresh_jwt: s.refresh_jwt.clone(),
        did: s.did.clone(),
        handle: s.handle.clone(),
        created_ms: s.created_ms,
    }
}

fn new_session(r: SessionResponse, now_ms: u64) -> (s: Session)
    ensures
        session_view(s) == session_from(r, now_ms),
{
    Session {
        access_jwt: r.access_jwt,
        refresh_jwt: r.refresh_jwt,
        did: r.did,
        handle: r.handle,
        created_ms: now_ms,
    }
}

/// Whether a session obtained at `created_ms` is still fresh at `now_ms`
/// (time running backwards counts as none elapsed).
pub open spec fn is_fresh(created_ms: u64, now_ms: u64) -> bool {
    if now_ms >= created_ms {
        now_ms - created_ms < ACCESS_JWT_TTL_MS
    } else {
        true
    }
}

/// What the flow is waiting for.
#[derive(Debug, Clone, Copy, PartialEq, Eq, Structural)]
pub enum SessionPhase {
    /// Nothing under way.
    Idle,
    /// Refreshing the expired session held in memory.
    RefreshingCached,
    /// Reading the account's stored tokens.
    LoadingStored,
    /// Refreshing with the stored refresh token.
    RefreshingStored,
    /// Logging in with the account's handle and password.
    Creating,
}

/// What happened since the last step.
#[derive(Debug)]
pub enum SessionEvent {
    /// A session is needed; `now_ms` is the monotonic time.
    Begin { now_ms: u64 },
    /// The stored tokens were read: the stored refresh token, if any (also
    /// `None` when reading failed).
    Stored { refresh_token: Option<String> },
    /// A refresh call returned a session, or failed with this message.
    Refreshed { response: Result<SessionResponse, String>, now_ms: u64 },
    /// A login call returned a session, or failed with this message.
    Created { response: Result<SessionResponse, String>, now_ms: u64 },
}

/// What to do next.
#[derive(Debug)]
pub enum SessionAction {
    /// Use this session.
    Ready(Session),
    /// Call `com.atproto.server.refreshSession` with this refresh token.
    Refresh(String),
    /// Read the account's stored tokens.
    LoadStored,
    /// Call `com.atproto.server.createSession` with these credentials.
    Create { identifier: String, password: String },
    /// Use this new session; save its tokens first when `persist`.
    Established { session: Session, persist: bool },
    /// Give up with this error.
    Failed(String),
}

/// An action as plain data.
pub enum ActionView {
    Ready(SessionView),
    Refresh(Seq<char>),
    LoadStored,
    Create(Seq<char>, Seq<char>),
    Established(SessionView, bool),
    Failed(Seq<char>),
}

pub open spec fn action_view(a: SessionAction) -> ActionView {
    match a {
        SessionAction::Ready(s) => ActionView::Ready(session_view(s)),
        SessionAction::Refresh(t) => ActionView::Refresh(t@),
        SessionAction::LoadStored => ActionView::LoadStored,
        SessionAction::Create { identifier, password } => ActionView::Create(identifier@, password@),
        SessionAction::Established { session, persist } => ActionView::Established(
            session_view(session),
            persist,
        ),
        SessionAction::Failed(e) => ActionView::Failed(e@),
    }
}

/// An event as plain data.
pub enum EventView {
    Begin(u64),
    Stored(Option<Seq<char>>),
    Refreshed(Result<SessionView, Seq<char>>),
    Created(Result<SessionView, Seq<char>>),
}

pub open spec fn response_view(r: Result<SessionResponse, String>, now_ms: u64) -> Result<SessionView, Seq<char>> {
    match r {
        Ok(s) => Ok(session_from(s, now_ms)),
        Err(e) => Err(e@),
    }
}

pub open spec fn event_view(e: SessionEvent) -> EventView {
    match e {
        SessionEvent::Begin { now_ms } => EventView::Begin(now_ms),
        SessionEvent::Stored { refresh_token } => EventView::Stored(opt_view(refresh_token)),
        SessionEvent::Refreshed { response, now_ms } => EventView::Refreshed(response_view(response, now_ms)),
        SessionEvent::Created { response, now_ms } => EventView::Created(response_view(response, now_ms)),
    }
}

/// The session keeper of one account.
#[derive(Debug)]
pub struct SessionFlow {
    phase: SessionPhase,
    cached: Option<Session>,
    has_sink: bool,
    identifier: String,
    password: String,
}

/// The keeper as plain data.
pub struct FlowView {
    pub phase: SessionPhase,
    pub cached: Option<SessionView>,
    pub has_sink: bool,
    pub identifier: Seq<char>,
    pub password: Seq<char>,
}

impl View for SessionFlow {
    type V = FlowView;

    closed spec fn view(&self) -> FlowView {
        FlowView {
            phase: self.phase,
            cached: match self.cached {
                Some(s) => Some(session_view(s)),
                None => None,
            },
            has_sink: self.has_sink,
            identifier: self.identifier@,
            password: self.password@,
        }
    }
}

/// The message for an event that does not fit the phase.
pub open spec fn out_of_turn() -> Seq<char> {
    "session: unexpected event"@
}

pub open spec fn with_phase(f: FlowView, p: SessionPhase) -> FlowView {
    FlowView { phase: p, ..f }
}

/// Logging in, or reading the stored tokens first when the account has a
/// token store.
pub open spec fn start_login(f: FlowView) -> (FlowView, ActionView) {
    if f.has_sink {
        (with_phase(f, SessionPhase::LoadingStored), ActionView::LoadStored)
    } else {
        (with_phase(f, SessionPhase::Creating), ActionView::Create(f.identifier, f.password))
    }
}

/// A new session: kept, returned, and saved when the account has a store.
pub open spec fn establish(f: FlowView, s: SessionView) -> (FlowView, ActionView) {
    (
        FlowView { phase: SessionPhase::Idle, cached: Some(s), ..f },
        ActionView::Established(s, f.has_sink),
    )
}

/// One step of the keeper:
/// - asked for a session, it reuses the one in memory while fresh,
///   refreshes it once expired, and without one reads the stored tokens
///   (when there is a store) or logs in;
/// - a stored refresh token is tried; without one, or when that refresh
///   fails, it logs in;
/// - a failed refresh of the session in memory, or a failed login, is the
///   error returned;
/// - any session obtained is kept and returned.
/// A request for a session starts afresh in any phase: a request that was
/// abandoned half-way (its caller gave up waiting) leaves nothing behind.
/// Any other event that does not fit the phase changes nothing and is an
/// error.
pub open spec fn flow_step(f: FlowView, e: EventView) -> (FlowView, ActionView) {
    match (f.phase, e) {
        (_, EventView::Begin(now)) => match f.cached {
            Some(s) => if is_fresh(s.4, now) {
                (with_phase(f, SessionPhase::Idle), ActionView::Ready(s))
            } else {
                (with_phase(f, SessionPhase::RefreshingCached), ActionView::Refresh(s.1))
            },
            None => start_login(f),
        },
        (SessionPhase::LoadingStored, EventView::Stored(t)) => match t {
            Some(tok) => (with_phase(f, SessionPhase::RefreshingStored), ActionView::Refresh(tok)),
            None => (with_phase(f, SessionPhase::Creating), ActionView::Create(f.identifier, f.password)),
        },
        (SessionPhase::RefreshingCached, EventView::Refreshed(r)) => match r {
            Ok(s) => establish(f, s),
            Err(m) => (with_phase(f, SessionPhase::Idle), ActionView::Failed(m)),
        },
        (SessionPhase::RefreshingStored, EventView::Refreshed(r)) => match r {
            Ok(s) => establish(f, s),
            Err(_) => (with_phase(f, SessionPhase::Creating), ActionView::Create(f.identifier, f.password)),
        },
        (SessionPhase::Creating, EventView::Created(r)) => match r {
            Ok(s) => establish(f, s),
            Err(m) => (with_phase(f, SessionPhase::Idle), ActionView::Failed(m)),
        },
        _ => (f, ActionView::Failed(out_of_turn())),
    }
}

impl SessionFlow {
    /// A keeper with no session yet; `has_sink` says whether the account
    /// stores its tokens.
    pub fn new(identifier: String, password: String, has_sink: bool) -> (f: SessionFlow)
        ensures
            f@ == (FlowView {
                phase: SessionPhase::Idle,
                cached: None,
                has_sink,
                identifier: identifier@,
                password: password@,
            }),
    {
        SessionFlow { phase: SessionPhase::Idle, cached: None, has_sink, identifier, password }
    }

    fn login(&mut self) -> (a: SessionAction)
        ensures
            (final(self)@, action_view(a)) == start_login(old(self)@),
    {
        if self.has_sink {
            self.phase = SessionPhase::LoadingStored;
            SessionAction::LoadStored
        } else {
            self.phase = SessionPhase::Creating;
            self.create()
        }
    }

    fn create(&self) -> (a: SessionAction)
        ensures
            action_view(a) == ActionView::Create(self@.identifier, self@.password),
    {
        SessionAction::Create { identifier: self.identifier.clone(), password: self.password.clone() }
    }

    fn keep(&mut self, r: SessionResponse, now_ms: u64) -> (a: SessionAction)
        ensures
            (final(self)@, action_view(a)) == establish(old(self)@, session_from(r, now_ms)),
    {
        let s = new_session(r, now_ms);
        let c = clone_session(&s);
        self.cached = Some(c);
        self.phase = SessionPhase::Idle;
        SessionAction::Established { session: s, persist: self.has_sink }
    }

    /// Feeds one event and returns what to do next (see [`flow_step`]).
    pub fn step(&mut self, event: SessionEvent) -> (a: SessionAction)
        ensures
            (final(self)@, action_view(a)) == flow_step(old(self)@, event_view(event)),
    {
        match event {
            SessionEvent::Begin { now_ms } => {
                self.phase = SessionPhase::Idle;
                match &self.cached {
                    Some(s) => {
                        let fresh = if now_ms >= s.created_ms {
                            now_ms - s.created_ms < ACCESS_JWT_TTL_MS
                        } else {
                            true
                        };
                        if fresh {
                            SessionAction::Ready(clone_session(s))
                        } else {
                            let t = s.refresh_jwt.clone();
                            self.phase = SessionPhase::RefreshingCached;
                            SessionAction::Refresh(t)
                        }
                    },
                    None => self.login(),
                }
            },
            SessionEvent::Stored { refresh_token } => {
                if self.phase != SessionPhase::LoadingStored {
                    return SessionAction::Failed("session: unexpected event".to_owned());
                }
                match refresh_token {
                    Some(t) => {
                        self.phase = SessionPhase::RefreshingStored;
                        SessionAction::Refresh(t)
                    },
                    None => {
                        self.phase = SessionPhase::Creating;
                        self.create()
                    },
                }
            },
            SessionEvent::Refreshed { response, now_ms } => {
                if self.phase == SessionPhase::RefreshingCached {
                    match response {
                        Ok(r) => self.keep(r, now_ms),
                        Err(m) => {
                            self.phase = SessionPhase::Idle;
                            SessionAction::Failed(m)
                        },
                    }
                } else if self.phase == SessionPhase::RefreshingStored {
                    match response {
                        Ok(r) => self.keep(r, now_ms),
                        Err(_) => {
                            self.phase = SessionPhase::Creating;
                            self.create()
                        },
                    }
                } else {
                    SessionAction::Failed("session: unexpected event".to_owned())
                }
            },
            SessionEvent::Created { response, now_ms } => {
                if self.phase != SessionPhase::Creating {
                    return SessionAction::Failed("session: unexpected event".to_owned());
                }
                match response {
                    Ok(r) => self.keep(r, now_ms),
                    Err(m) => {
                        self.phase = SessionPhase::Idle;
                        SessionAction::Failed(m)
                    },
                }
            },
        }
    }
}

/// The tokens saved for a session obtained at `now_secs` (Unix seconds):
/// its access and refresh tokens, trusted for [`REFRESH_JWT_TTL_SECS`].
pub fn session_tokens(session: &Session, now_secs: i64) -> (t: TokenSet)
    requires
        now_secs + REFRESH_JWT_TTL_SECS <= i64::MAX,
    ensures
        t.access_token@ == session.access_jwt@,
        opt_view(t.refresh_token) == Some(session.refresh_jwt@),
        t.expires_at == Some((now_secs + REFRESH_JWT_TTL_SECS) as i64),
{
    TokenSet {
        access_token: session.access_jwt.clone(),
        refresh_token: Some(session.refresh_jwt.clone()),
        expires_at: Some(now_secs + REFRESH_JWT_TTL_SECS),
    }
}

/// The tokens saved for a session obtained now (see [`session_tokens`]);
/// the expiry is the 64-bit wrapping sum of the current time and
/// [`REFRESH_JWT_TTL_SECS`]. The time comes from the clock, so the expiry is
/// stated for some time.
pub fn session_tokens_now(session: &Session) -> (t: TokenSet)
    ensures
        t.access_token@ == session.access_jwt@,
        opt_view(t.refresh_token) == Some(session.refresh_jwt@),
        exists|now: i64| t.expires_at == Some(vstd::wrapping::i64_specs::wrapping_add(now, REFRESH_JWT_TTL_SECS)),
{
    let now = unix_now();
    let t = TokenSet {
        access_token: session.access_jwt.clone(),
        refresh_token: Some(session.refresh_jwt.clone()),
        expires_at: Some(now.wrapping_add(REFRESH_JWT_TTL_SECS)),
    };
    assert(t.expires_at == Some(vstd::wrapping::i64_specs::wrapping_add(now, REFRESH_JWT_TTL_SECS)));
    t
}

// ─── Laws ────────────────────────────────────────────────────────────────────

/// A fresh session in memory is reused: no call is made and nothing changes.
pub proof fn law_fresh_session_reused(f: FlowView, s: SessionView, now: u64)
    requires
        f.phase == SessionPhase::Idle,
        f.cached == Some(s),
        is_fresh(s.4, now),
    ensures
        flow_step(f, EventView::Begin(now)) == (f, ActionView::Ready(s)),
{
}

/// A request for a session is answered the same way whatever phase the
/// keeper was left in: an abandoned request does not block later ones.
pub proof fn law_begin_restarts(f: FlowView, now: u64)
    ensures
        flow_step(f, EventView::Begin(now)) == flow_step(with_phase(f, SessionPhase::Idle), EventView::Begin(now)),
        flow_step(f, EventView::Begin(now)).1 != ActionView::Failed(out_of_turn()),
{
}

/// When the stored refresh token is refused, the keeper logs in with the
/// account's credentials instead of failing.
pub proof fn law_stored_refresh_falls_back_to_login(f: FlowView, m: Seq<char>)
    requires
        f.phase == SessionPhase::RefreshingStored,
    ensures
        flow_step(f, EventView::Refreshed(Err(m))).1 == ActionView::Create(f.identifier, f.password),
        flow_step(f, EventView::Refreshed(Err(m))).0.phase == SessionPhase::Creating,
{
}

/// A session obtained by any route is the one kept and then reused while
/// fresh.
pub proof fn law_established_session_reused(f: FlowView, e: EventView, s: SessionView, now: u64)
    requires
        flow_step(f, e).1 == ActionView::Established(s, f.has_sink),
        is_fresh(s.4, now),
    ensures
        flow_step(flow_step(f, e).0, EventView::Begin(now)) == (flow_step(f, e).0, ActionView::Ready(s)),
{
}

} // verus!
