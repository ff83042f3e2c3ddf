//! The authenticated request core: one logical operation's walk through
//! attach-token, send, and the one-shot refresh-and-retry protocol.
//!
//! The machine decides; the surrounding program performs. Each step returns
//! an action: send the request with a given authorization value, call the
//! refresh endpoint, persist the credential store, or finish with a result.
//! The driver feeds back what the transport observed (an HTTP status, or the
//! outcome of the refresh call) and the machine moves on. Retry depth is
//! exactly one: a second 401 within the same logical operation clears the
//! credentials and escalates.

use vstd::prelude::*;

use crate::config::AppConfig;

verus! {

/// The errors a domain operation can surface.
#[derive(Debug, Clone, Copy, PartialEq, Eq, Structural)]
pub enum ApiError {
    /// An authorized operation was started without an access token on hand.
    NotAuthenticated,
    /// The one-shot refresh budget is spent or the refresh itself was
    /// rejected: the credentials are cleared and the user must log in again.
    ReauthenticationRequired,
    /// A non-2xx, non-401 status, surfaced verbatim and not retried.
    Unexpected { status: u16 },
    /// The transport failed to carry a request or a response.
    Transport,
    /// A response body did not match the expected shape.
    Decode,
    /// A local file read or write failed during a transfer.
    Io,
}

/// Where the machine stands within one logical operation.
#[derive(Debug, Clone, Copy, PartialEq, Eq, Structural)]
pub enum FlowState {
    /// The request is out; the next event is its HTTP status.
    Sent,
    /// The refresh call is out; the next event is its outcome.
    RefreshSent,
    /// The operation ended, in success or in an error.
    Done,
}

/// What the driver must do after starting a flow.
pub enum StartAction {
    /// Issue the request, with this value in the authorization header
    /// when one is given.
    Send { auth: Option<String> },
    /// Do not issue anything; the operation failed at once.
    Fail { error: ApiError },
}

/// What the driver must do after reporting the request's status.
pub enum ResponseAction {
    /// The status was 2xx: read the body and finish.
    Succeed,
    /// The status was 401 and the refresh budget is unspent: call the
    /// refresh endpoint with this value as the authorization header.
    SendRefresh { refresh: String },
    /// The status was 401 after a refresh already happened: the credentials
    /// are now cleared; persist them and surface this error, always the
    /// forced re-login.
    Escalate { error: ApiError },
    /// Any other status: finish with this error.
    Fail { error: ApiError },
}

/// What the driver observed from the refresh endpoint.
pub enum RefreshOutcome {
    /// 2xx with a well-formed body: a fresh token pair and session identity.
    Renewed {
        access_token: String,
        refresh_token: String,
        email: String,
        name: String,
        user_id: String,
    },
    /// A non-2xx status: the refresh token itself was not accepted.
    Rejected { status: u16 },
    /// The refresh call could not be carried out.
    TransportFailed,
    /// The refresh response body did not match the expected shape.
    DecodeFailed,
}

/// What the driver must do after reporting the refresh outcome.
pub enum RefreshAction {
    /// The credentials now hold the fresh pair: persist them first, then
    /// re-issue the original request with this authorization value.
    PersistAndRetry { auth: String },
    /// The credentials are now cleared: persist them and surface this
    /// error, always the forced re-login.
    Escalate { error: ApiError },
    /// Finish with this error; the credentials are untouched.
    Fail { error: ApiError },
}

/// One logical operation's state: the credential store it owns for the
/// duration of the call, whether the request carries authorization, the
/// one-shot refresh flag, and where the protocol stands.
pub struct AuthFlow {
    pub config: AppConfig,
    pub requires_auth: bool,
    pub refreshed: bool,
    pub state: FlowState,
}

/// A 2xx status.
pub open spec fn spec_is_success(status: u16) -> bool {
    200 <= status < 300
}

/// Whether an HTTP status counts as success, as the protocol reads it.
pub fn is_success_status(status: u16) -> (r: bool)
    ensures
        r == spec_is_success(status),
{
    200 <= status && status < 300
}

impl AuthFlow {
    /// The machine's invariant: the token pair is whole, and while a request
    /// that carries authorization is in flight, an access token exists to
    /// carry; a refresh is only ever in flight before the budget is spent.
    pub open spec fn wf(self) -> bool {
        &&& self.config.tokens_paired()
        &&& (self.state is Sent || self.state is RefreshSent) && self.requires_auth
            ==> self.config.access_token is Some
        &&& self.state is RefreshSent ==> !self.refreshed && self.requires_auth
    }

    /// What starting a flow yields: fail fast without an access token,
    /// else send, attaching the token exactly when authorization is required.
    pub open spec fn spec_start(config: AppConfig, requires_auth: bool) -> (AuthFlow, StartAction) {
        if requires_auth && config.access_token is None {
            (
                AuthFlow { config, requires_auth, refreshed: false, state: FlowState::Done },
                StartAction::Fail { error: ApiError::NotAuthenticated },
            )
        } else {
            (
                AuthFlow { config, requires_auth, refreshed: false, state: FlowState::Sent },
                StartAction::Send {
                    auth: if requires_auth {
                        Some(config.access_token->0)
                    } else {
                        None
                    },
                },
            )
        }
    }

    /// What a reported status yields: 2xx succeeds; a first 401 on an
    /// authorized request asks for a refresh; a 401 with the budget spent
    /// clears the credentials and escalates; anything else fails verbatim.
    pub open spec fn spec_on_response(self, status: u16) -> (AuthFlow, ResponseAction) {
        if spec_is_success(status) {
            (AuthFlow { state: FlowState::Done, ..self }, ResponseAction::Succeed)
        } else if status == 401 && self.requires_auth && !self.refreshed {
            (
                AuthFlow { state: FlowState::RefreshSent, ..self },
                ResponseAction::SendRefresh { refresh: self.config.refresh_token->0 },
            )
        } else if status == 401 && self.requires_auth && self.refreshed {
            (
                AuthFlow { config: Self::spec_empty_config(), state: FlowState::Done, ..self },
                ResponseAction::Escalate { error: ApiError::ReauthenticationRequired },
            )
        } else {
            (
                AuthFlow { state: FlowState::Done, ..self },
                ResponseAction::Fail { error: ApiError::Unexpected { status } },
            )
        }
    }

    /// What a refresh outcome yields: a renewal replaces the whole session,
    /// marks the budget spent and retries; a rejection clears the credentials
    /// and escalates; a transport or decode failure propagates untouched.
    pub open spec fn spec_on_refresh(self, outcome: RefreshOutcome) -> (AuthFlow, RefreshAction) {
        match outcome {
            RefreshOutcome::Renewed { access_token, refresh_token, email, name, user_id } => (
                AuthFlow {
                    config: AppConfig {
                        access_token: Some(access_token),
                        refresh_token: Some(refresh_token),
                        email: Some(email),
                        name: Some(name),
                        user_id: Some(user_id),
                    },
                    refreshed: true,
                    state: FlowState::Sent,
                    ..self
                },
                RefreshAction::PersistAndRetry { auth: access_token },
            ),
            RefreshOutcome::Rejected { status } => (
                AuthFlow { config: Self::spec_empty_config(), state: FlowState::Done, ..self },
                RefreshAction::Escalate { error: ApiError::ReauthenticationRequired },
            ),
            RefreshOutcome::TransportFailed => (
                AuthFlow { state: FlowState::Done, ..self },
                RefreshAction::Fail { error: ApiError::Transport },
            ),
            RefreshOutcome::DecodeFailed => (
                AuthFlow { state: FlowState::Done, ..self },
                RefreshAction::Fail { error: ApiError::Decode },
            ),
        }
    }

    /// The cleared credential store.
    pub open spec fn spec_empty_config() -> AppConfig {
        AppConfig {
            access_token: None,
            refresh_token: None,
            email: None,
            name: None,
            user_id: None,
        }
    }

    /// Begin one logical operation over the given credential store.
    pub fn start(config: AppConfig, requires_auth: bool) -> (r: (AuthFlow, StartAction))
        requires
            config.tokens_paired(),
        ensures
            r == Self::spec_start(config, requires_auth),
            r.0.wf(),
    {
        if requires_auth && !config.has_access_token() {
            (
                AuthFlow { config, requires_auth, refreshed: false, state: FlowState::Done },
                StartAction::Fail { error: ApiError::NotAuthenticated },
            )
        } else {
            let auth: Option<String> = if requires_auth {
                match &config.access_token {
                    Some(t) => Some(t.clone()),
                    None => None,
                }
            } else {
                None
            };
            (
                AuthFlow { config, requires_auth, refreshed: false, state: FlowState::Sent },
                StartAction::Send { auth },
            )
        }
    }

    /// Report the HTTP status of the request this flow sent.
    pub fn on_response(&mut self, status: u16) -> (r: ResponseAction)
        requires
            old(self).wf(),
            old(self).state is Sent,
        ensures
            *final(self) == old(self).spec_on_response(status).0,
            r == old(self).spec_on_response(status).1,
            final(self).wf(),
    {
        if is_success_status(status) {
            self.state = FlowState::Done;
            ResponseAction::Succeed
        } else if status == 401 && self.requires_auth && !self.refreshed {
            self.state = FlowState::RefreshSent;
            let refresh: String = match &self.config.refresh_token {
                Some(t) => t.clone(),
                None => String::new(),
            };
            ResponseAction::SendRefresh { refresh }
        } else if status == 401 && self.requires_auth && self.refreshed {
            self.config.clear();
            self.state = FlowState::Done;
            ResponseAction::Escalate { error: ApiError::ReauthenticationRequired }
        } else {
            self.state = FlowState::Done;
            ResponseAction::Fail { error: ApiError::Unexpected { status } }
        }
    }

    /// Report what the refresh endpoint answered.
    pub fn on_refresh(&mut self, outcome: RefreshOutcome) -> (r: RefreshAction)
        requires
            old(self).wf(),
            old(self).state is RefreshSent,
        ensures
            *final(self) == old(self).spec_on_refresh(outcome).0,
            r == old(self).spec_on_refresh(outcome).1,
            final(self).wf(),
    {
        match outcome {
            RefreshOutcome::Renewed { access_token, refresh_token, email, name, user_id } => {
                let auth = access_token.clone();
                self.config.set_session(access_token, refresh_token, email, name, user_id);
                self.refreshed = true;
                self.state = FlowState::Sent;
                RefreshAction::PersistAndRetry { auth }
            },
            RefreshOutcome::Rejected { status: _ } => {
                self.config.clear();
                self.state = FlowState::Done;
                RefreshAction::Escalate { error: ApiError::ReauthenticationRequired }
            },
            RefreshOutcome::TransportFailed => {
                self.state = FlowState::Done;
                RefreshAction::Fail { error: ApiError::Transport }
            },
            RefreshOutcome::DecodeFailed => {
                self.state = FlowState::Done;
                RefreshAction::Fail { error: ApiError::Decode }
            },
        }
    }

    /// Hand the credential store back when the operation is over.
    pub fn into_config(self) -> (r: AppConfig)
        ensures
            r == self.config,
    {
        self.config
    }
}

/// A 401 on an authorized request triggers exactly one refresh attempt and
/// one retry: the first 401 asks for the refresh, a renewal retries the
/// original request once, and a second 401 escalates with every credential
/// cleared, surfacing the forced re-login instead of refreshing again.
pub proof fn lemma_one_shot_refresh(flow: AuthFlow, outcome: RefreshOutcome)
    requires
        flow.wf(),
        flow.state is Sent,
        flow.requires_auth,
        !flow.refreshed,
        outcome is Renewed,
    ensures
        ({
            let (after_401, first) = flow.spec_on_response(401);
            let (after_refresh, renewal) = after_401.spec_on_refresh(outcome);
            let (after_second_401, second) = after_refresh.spec_on_response(401);
            &&& first is SendRefresh
            &&& renewal is PersistAndRetry
            &&& second is Escalate
            &&& after_second_401.config == AuthFlow::spec_empty_config()
            &&& after_second_401.state is Done
        }),
{
}

/// A refresh is only ever requested while the one-shot budget is unspent,
/// and once it is spent no step makes it unspent again: the budget flag is
/// monotone over every response and refresh step.
pub proof fn lemma_refresh_budget(flow: AuthFlow, status: u16, outcome: RefreshOutcome)
    ensures
        flow.spec_on_response(status).1 is SendRefresh ==> !flow.refreshed,
        flow.refreshed ==> flow.spec_on_response(status).0.refreshed,
        flow.refreshed ==> flow.spec_on_refresh(outcome).0.refreshed,
{
}

/// A successful refresh replaces both tokens at once and yields a single
/// action that persists the fresh credentials before the original request is
/// re-issued; the retry carries the fresh access token, never the stale one.
pub proof fn lemma_refresh_replaces_tokens(
    flow: AuthFlow,
    access_token: String,
    refresh_token: String,
    email: String,
    name: String,
    user_id: String,
)
    requires
        flow.wf(),
        flow.state is RefreshSent,
    ensures
        ({
            let renewed = RefreshOutcome::Renewed {
                access_token,
                refresh_token,
                email,
                name,
                user_id,
            };
            let (after, action) = flow.spec_on_refresh(renewed);
            &&& after.config.access_token == Some(access_token)
            &&& after.config.refresh_token == Some(refresh_token)
            &&& after.config.tokens_paired()
            &&& action == (RefreshAction::PersistAndRetry { auth: access_token })
            &&& after.state is Sent
            &&& after.refreshed
        }),
{
}

} // verus!
