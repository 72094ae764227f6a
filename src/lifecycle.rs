use vstd::prelude::*;
use crate::account::{Account, AccountView, deserialized_account, serialized_account, lemma_account_round_trip};
use crate::instant::{Instant, Freshness, now_instant, before};
use crate::service::{ExchangeError, ExchangeErrorView, str_opt_view, token_form_fields};
use crate::text::{chars_of, string_of};

verus! {

/// The store slot could not be read or written.
#[derive(Clone, Copy, Debug, PartialEq, Eq, Structural)]
pub struct StoreUnavailable;

/// Why resolution ended without a credential.
#[derive(Clone, Debug, PartialEq, Eq)]
pub enum ResolutionFailure {
    /// The stored credential could not be read.
    MalformedCredential,
    /// No usable credential and no authorization code: the user must sign in.
    AuthorizationRequired,
    /// The authorization code was refused.
    AuthenticationFailed(ExchangeError),
    /// A newly obtained credential could not be stored.
    StoreUnavailable,
}

pub enum ResolutionFailureView {
    MalformedCredential,
    AuthorizationRequired,
    AuthenticationFailed(ExchangeErrorView),
    StoreUnavailable,
}

impl View for ResolutionFailure {
    type V = ResolutionFailureView;

    open spec fn view(&self) -> ResolutionFailureView {
        match self {
            ResolutionFailure::MalformedCredential => ResolutionFailureView::MalformedCredential,
            ResolutionFailure::AuthorizationRequired => ResolutionFailureView::AuthorizationRequired,
            ResolutionFailure::AuthenticationFailed(e) => ResolutionFailureView::AuthenticationFailed(
                e@,
            ),
            ResolutionFailure::StoreUnavailable => ResolutionFailureView::StoreUnavailable,
        }
    }
}

/// What the caller does next on behalf of a [`Resolution`].
#[derive(Debug)]
pub enum Action {
    /// Call the token endpoint with this grant type and token.
    Exchange { grant_type: String, token: String },
    /// Ask the verification endpoint whether this access token is accepted.
    Verify { access_token: String },
    /// Write this text to the store slot.
    Save { payload: String },
    /// Resolution is over with this credential.
    Resolved(Account),
    /// Resolution is over without a credential.
    Failed(ResolutionFailure),
}

pub enum ActionView {
    Exchange { grant_type: Seq<char>, token: Seq<char> },
    Verify { access_token: Seq<char> },
    Save { payload: Seq<char> },
    Resolved(AccountView),
    Failed(ResolutionFailureView),
}

impl View for Action {
    type V = ActionView;

    open spec fn view(&self) -> ActionView {
        match self {
            Action::Exchange { grant_type, token } => ActionView::Exchange {
                grant_type: grant_type@,
                token: token@,
            },
            Action::Verify { access_token } => ActionView::Verify { access_token: access_token@ },
            Action::Save { payload } => ActionView::Save { payload: payload@ },
            Action::Resolved(a) => ActionView::Resolved(a@),
            Action::Failed(f) => ActionView::Failed(f@),
        }
    }
}

/// The result of the last [`Action`], handed back to the [`Resolution`].
#[derive(Debug)]
pub enum Event {
    /// The token endpoint's answer.
    Exchanged(Result<Account, ExchangeError>),
    /// Whether verification succeeded.
    Verified(bool),
    /// Whether the store slot was written.
    Saved(Result<(), StoreUnavailable>),
}

pub enum EventView {
    Exchanged(Result<AccountView, ExchangeErrorView>),
    Verified(bool),
    Saved(bool),
}

impl View for Event {
    type V = EventView;

    open spec fn view(&self) -> EventView {
        match self {
            Event::Exchanged(Ok(a)) => EventView::Exchanged(Ok(a@)),
            Event::Exchanged(Err(e)) => EventView::Exchanged(Err(e@)),
            Event::Verified(b) => EventView::Verified(*b),
            Event::Saved(r) => EventView::Saved(r is Ok),
        }
    }
}

/// What a [`Resolution`] waits for.
#[derive(Clone, Copy, Debug, PartialEq, Eq, Structural)]
pub enum Stage {
    /// The answer to a refresh of the stored credential.
    Refreshing,
    /// The answer to a verification of the stored credential.
    Verifying,
    /// The answer to an exchange of the authorization code.
    LoggingIn,
    /// The outcome of storing a new credential.
    Saving,
    /// Nothing: resolution is over.
    Done,
}

/// The credential lifecycle: decides from a stored credential and an optional
/// authorization code whether to reuse, refresh, sign in again or fail.
pub struct Resolution {
    pub stage: Stage,
    pub saved: Option<Account>,
    pub code: Option<String>,
    pub pending: Option<Account>,
}

pub struct ResolutionView {
    pub stage: Stage,
    pub saved: Option<AccountView>,
    pub code: Option<Seq<char>>,
    pub pending: Option<AccountView>,
}

pub open spec fn opt_account_view(o: Option<Account>) -> Option<AccountView> {
    match o {
        Some(a) => Some(a@),
        None => None,
    }
}

pub open spec fn opt_string_view(o: Option<String>) -> Option<Seq<char>> {
    match o {
        Some(s) => Some(s@),
        None => None,
    }
}

impl View for Resolution {
    type V = ResolutionView;

    open spec fn view(&self) -> ResolutionView {
        ResolutionView {
            stage: self.stage,
            saved: opt_account_view(self.saved),
            code: opt_string_view(self.code),
            pending: opt_account_view(self.pending),
        }
    }
}

impl ResolutionView {
    /// The stored credential is at hand while it is verified, and the new one
    /// while it is stored.
    pub open spec fn wf(self) -> bool {
        &&& self.stage == Stage::Verifying ==> self.saved is Some
        &&& self.stage == Stage::Saving ==> self.pending is Some
    }

    /// `ev` answers what this resolution waits for.
    pub open spec fn expects(self, ev: EventView) -> bool {
        match ev {
            EventView::Exchanged(_) => self.stage == Stage::Refreshing || self.stage
                == Stage::LoggingIn,
            EventView::Verified(_) => self.stage == Stage::Verifying,
            EventView::Saved(_) => self.stage == Stage::Saving,
        }
    }

    pub open spec fn with_stage(self, stage: Stage) -> ResolutionView {
        ResolutionView { stage, saved: self.saved, code: self.code, pending: self.pending }
    }
}

/// No stored credential can be used: sign in with the authorization code if
/// one was given, else fail with `AuthorizationRequired`.
pub open spec fn fallback(st: ResolutionView) -> (ResolutionView, ActionView) {
    if st.code is Some && st.code->0.len() > 0 {
        (
            st.with_stage(Stage::LoggingIn),
            ActionView::Exchange { grant_type: "authorization_code"@, token: st.code->0 },
        )
    } else {
        (st.with_stage(Stage::Done), ActionView::Failed(ResolutionFailureView::AuthorizationRequired))
    }
}

/// The first step, from the store's content, the authorization code and the time.
pub open spec fn start_spec(stored: Option<Seq<char>>, code: Option<Seq<char>>, now: Instant) -> (
    ResolutionView,
    ActionView,
) {
    let init = ResolutionView { stage: Stage::Done, saved: None, code, pending: None };
    match stored {
        None => fallback(init),
        Some(text) => match deserialized_account(text) {
            None => (init, ActionView::Failed(ResolutionFailureView::MalformedCredential)),
            Some(a) => {
                let st = ResolutionView { stage: Stage::Done, saved: Some(a), code, pending: None };
                match a.freshness(now) {
                    Freshness::Refreshable => (
                        st.with_stage(Stage::Refreshing),
                        ActionView::Exchange { grant_type: "refresh_token"@, token: a.refresh_token },
                    ),
                    Freshness::Fresh => (
                        st.with_stage(Stage::Verifying),
                        ActionView::Verify { access_token: a.access_token },
                    ),
                    Freshness::Dead => fallback(st),
                }
            },
        },
    }
}

/// Stores a newly obtained credential before handing it out.
pub open spec fn save_new(st: ResolutionView, b: AccountView) -> (ResolutionView, ActionView) {
    (
        ResolutionView { stage: Stage::Saving, saved: st.saved, code: st.code, pending: Some(b) },
        ActionView::Save { payload: serialized_account(b) },
    )
}

/// The next step once `ev` answers what `st` waits for.
pub open spec fn advance_spec(st: ResolutionView, ev: EventView) -> (ResolutionView, ActionView) {
    match ev {
        EventView::Exchanged(Ok(b)) => save_new(st, b),
        EventView::Exchanged(Err(e)) => if st.stage == Stage::Refreshing {
            fallback(st)
        } else {
            (
                st.with_stage(Stage::Done),
                ActionView::Failed(ResolutionFailureView::AuthenticationFailed(e)),
            )
        },
        EventView::Verified(true) => (
            ResolutionView { stage: Stage::Done, saved: None, code: st.code, pending: st.pending },
            ActionView::Resolved(st.saved->0),
        ),
        EventView::Verified(false) => fallback(st),
        EventView::Saved(true) => (
            ResolutionView { stage: Stage::Done, saved: st.saved, code: st.code, pending: None },
            ActionView::Resolved(st.pending->0),
        ),
        EventView::Saved(false) => (
            st.with_stage(Stage::Done),
            ActionView::Failed(ResolutionFailureView::StoreUnavailable),
        ),
    }
}

fn text_of(s: &str) -> (r: String)
    ensures
        r@ == s@,
{
    string_of(&chars_of(s))
}

impl Resolution {
    fn fall_back(&mut self) -> (a: Action)
        ensures
            (final(self)@, a@) == fallback(old(self)@),
    {
        let usable = match &self.code {
            Some(c) => !c.as_str().is_empty(),
            None => false,
        };
        if usable {
            self.stage = Stage::LoggingIn;
            let token = match &self.code {
                Some(c) => c.clone(),
                None => String::new(),
            };
            Action::Exchange { grant_type: text_of("authorization_code"), token }
        } else {
            self.stage = Stage::Done;
            Action::Failed(ResolutionFailure::AuthorizationRequired)
        }
    }

    /// Begins resolution from the store's content (`None` when the slot is
    /// empty or unreadable), an optional authorization code and the time `now`.
    pub fn start(stored: Option<&str>, code: Option<String>, now: Instant) -> (r: (
        Resolution,
        Action,
    ))
        ensures
            (r.0@, r.1@) == start_spec(
                str_opt_view(stored),
                opt_string_view(code),
                now,
            ),
            r.0@.wf(),
    {
        let mut st = Resolution { stage: Stage::Done, saved: None, code, pending: None };
        match stored {
            None => {
                let a = st.fall_back();
                (st, a)
            },
            Some(text) => match Account::from_json(text) {
                Err(_) => (st, Action::Failed(ResolutionFailure::MalformedCredential)),
                Ok(acc) => {
                    let state = acc.freshness(now);
                    match state {
                        Freshness::Refreshable => {
                            let token = acc.refresh_token.clone();
                            st.saved = Some(acc);
                            st.stage = Stage::Refreshing;
                            (st, Action::Exchange { grant_type: text_of("refresh_token"), token })
                        },
                        Freshness::Fresh => {
                            let access_token = acc.access_token.clone();
                            st.saved = Some(acc);
                            st.stage = Stage::Verifying;
                            (st, Action::Verify { access_token })
                        },
                        Freshness::Dead => {
                            st.saved = Some(acc);
                            let a = st.fall_back();
                            (st, a)
                        },
                    }
                },
            },
        }
    }

    /// Begins resolution as [`Resolution::start`] does, at the current time of
    /// the system clock.
    pub fn start_now(stored: Option<&str>, code: Option<String>) -> (r: (Resolution, Action))
        ensures
            exists|now: Instant|
                (r.0@, r.1@) == #[trigger] start_spec(
                    str_opt_view(stored),
                    opt_string_view(code),
                    now,
                ),
            r.0@.wf(),
    {
        let now = now_instant();
        Resolution::start(stored, code, now)
    }

    /// Whether this resolution is well-formed and `ev` answers what it waits
    /// for: what [`Resolution::advance`] requires.
    pub fn expects(&self, ev: &Event) -> (r: bool)
        ensures
            r == (self@.wf() && self@.expects(ev@)),
    {
        let wf = match self.stage {
            Stage::Verifying => self.saved.is_some(),
            Stage::Saving => self.pending.is_some(),
            _ => true,
        };
        wf && match ev {
            Event::Exchanged(_) => self.stage == Stage::Refreshing || self.stage == Stage::LoggingIn,
            Event::Verified(_) => self.stage == Stage::Verifying,
            Event::Saved(_) => self.stage == Stage::Saving,
        }
    }

    /// Takes the answer to the last action and gives the next one.
    pub fn advance(&mut self, ev: Event) -> (a: Action)
        requires
            old(self)@.wf(),
            old(self)@.expects(ev@),
        ensures
            (final(self)@, a@) == advance_spec(old(self)@, ev@),
            final(self)@.wf(),
    {
        match ev {
            Event::Exchanged(Ok(b)) => {
                let payload = b.to_json();
                self.pending = Some(b);
                self.stage = Stage::Saving;
                Action::Save { payload }
            },
            Event::Exchanged(Err(e)) => {
                if self.stage == Stage::Refreshing {
                    self.fall_back()
                } else {
                    self.stage = Stage::Done;
                    Action::Failed(ResolutionFailure::AuthenticationFailed(e))
                }
            },
            Event::Verified(true) => {
                self.stage = Stage::Done;
                match self.saved.take() {
                    Some(acc) => Action::Resolved(acc),
                    None => Action::Failed(ResolutionFailure::AuthorizationRequired),
                }
            },
            Event::Verified(false) => self.fall_back(),
            Event::Saved(Ok(())) => {
                self.stage = Stage::Done;
                match self.pending.take() {
                    Some(acc) => Action::Resolved(acc),
                    None => Action::Failed(ResolutionFailure::StoreUnavailable),
                }
            },
            Event::Saved(Err(_)) => {
                self.stage = Stage::Done;
                Action::Failed(ResolutionFailure::StoreUnavailable)
            },
        }
    }
}

/// A stored credential whose access token expired and whose refresh token is
/// still valid is refreshed first; when the refresh succeeds, the new
/// credential is written to the store and returned, and reading the store
/// back gives the new credential.
pub proof fn lemma_refresh_then_store(
    text: Seq<char>,
    code: Option<Seq<char>>,
    now: Instant,
    fresh: AccountView,
)
    requires
        deserialized_account(text) is Some,
        deserialized_account(text)->0.freshness(now) == Freshness::Refreshable,
        fresh.is_valid(),
    ensures
        start_spec(Some(text), code, now).1 == (ActionView::Exchange {
            grant_type: "refresh_token"@,
            token: deserialized_account(text)->0.refresh_token,
        }),
        advance_spec(start_spec(Some(text), code, now).0, EventView::Exchanged(Ok(fresh))).1
            == (ActionView::Save { payload: serialized_account(fresh) }),
        deserialized_account(serialized_account(fresh)) == Some(fresh),
        advance_spec(
            advance_spec(start_spec(Some(text), code, now).0, EventView::Exchanged(Ok(fresh))).0,
            EventView::Saved(true),
        ).1 == ActionView::Resolved(fresh),
{
    lemma_account_round_trip(fresh);
}

/// A stored credential whose refresh token expired, with no authorization
/// code, fails with `AuthorizationRequired` at once, before any call.
pub proof fn lemma_dead_without_code(text: Seq<char>, now: Instant)
    requires
        deserialized_account(text) is Some,
        deserialized_account(text)->0.freshness(now) == Freshness::Dead,
    ensures
        start_spec(Some(text), None, now).1 == ActionView::Failed(
            ResolutionFailureView::AuthorizationRequired,
        ),
        start_spec(Some(text), None, now).0.stage == Stage::Done,
{
}

/// A stored credential whose refresh token expired at or before `now`, with no
/// authorization code, fails with `AuthorizationRequired` at once, before any
/// call. (An access token that outlives its refresh token is still verified
/// first, so such credentials are left out.)
pub proof fn lemma_expired_refresh_without_code(text: Seq<char>, now: Instant)
    requires
        deserialized_account(text) is Some,
        !before(now, deserialized_account(text)->0.refresh_expiry()),
        !before(
            deserialized_account(text)->0.refresh_expiry(),
            deserialized_account(text)->0.access_expiry(),
        ),
    ensures
        start_spec(Some(text), None, now).1 == ActionView::Failed(
            ResolutionFailureView::AuthorizationRequired,
        ),
        start_spec(Some(text), None, now).0.stage == Stage::Done,
{
    let a = deserialized_account(text)->0;
    assert(a.freshness(now) == Freshness::Dead);
}

/// A fresh stored credential is verified first; when verification fails it
/// is not returned: resolution signs in with the authorization code if one
/// was given, and otherwise fails with `AuthorizationRequired`.
pub proof fn lemma_unverified_falls_through(text: Seq<char>, code: Option<Seq<char>>, now: Instant)
    requires
        deserialized_account(text) is Some,
        deserialized_account(text)->0.freshness(now) == Freshness::Fresh,
    ensures
        start_spec(Some(text), code, now).1 == (ActionView::Verify {
            access_token: deserialized_account(text)->0.access_token,
        }),
        advance_spec(start_spec(Some(text), code, now).0, EventView::Verified(false)).1 == (if code
            is Some && code->0.len() > 0 {
            ActionView::Exchange { grant_type: "authorization_code"@, token: code->0 }
        } else {
            ActionView::Failed(ResolutionFailureView::AuthorizationRequired)
        }),
        !(advance_spec(start_spec(Some(text), code, now).0, EventView::Verified(false)).1 is Resolved),
{
}

/// With nothing stored and an authorization code, resolution makes one
/// exchange with grant type `authorization_code`, whose form carries the code
/// under `code`; on success it stores the new credential and returns it.
pub proof fn lemma_first_login(code: Seq<char>, now: Instant, fresh: AccountView)
    requires
        code.len() > 0,
    ensures
        start_spec(None, Some(code), now).1 == (ActionView::Exchange {
            grant_type: "authorization_code"@,
            token: code,
        }),
        token_form_fields("authorization_code"@, Some(code)) == seq![
            ("grant_type"@, "authorization_code"@),
            ("token_type"@, "eg1"@),
            ("code"@, code),
        ],
        advance_spec(start_spec(None, Some(code), now).0, EventView::Exchanged(Ok(fresh))).1 == (
        ActionView::Save { payload: serialized_account(fresh) }),
        advance_spec(
            advance_spec(start_spec(None, Some(code), now).0, EventView::Exchanged(Ok(fresh))).0,
            EventView::Saved(true),
        ).1 == ActionView::Resolved(fresh),
{
    assert(token_form_fields("authorization_code"@, Some(code)) =~= seq![
        ("grant_type"@, "authorization_code"@),
        ("token_type"@, "eg1"@),
        ("code"@, code),
    ]);
}

} // verus!
