//! The credential store: the access/refresh token pair and the session
//! identity, as kept in memory and persisted by the surrounding program.

use vstd::prelude::*;

verus! {

/// The persisted session state. The invariant [`AppConfig::tokens_paired`]
/// says that the two tokens are present together or absent together: a
/// half-populated pair is invalid and must force a fresh login.
#[derive(Debug, Clone, PartialEq)]
pub struct AppConfig {
    pub access_token: Option<String>,
    pub refresh_token: Option<String>,
    pub email: Option<String>,
    pub name: Option<String>,
    pub user_id: Option<String>,
}

/// The mathematical shape of the store: each field as the character sequence
/// it holds, when it holds one.
pub ghost struct ConfigView {
    pub access_token: Option<Seq<char>>,
    pub refresh_token: Option<Seq<char>>,
    pub email: Option<Seq<char>>,
    pub name: Option<Seq<char>>,
    pub user_id: Option<Seq<char>>,
}

impl View for AppConfig {
    type V = ConfigView;

    open spec fn view(&self) -> ConfigView {
        ConfigView {
            access_token: match self.access_token {
                Some(s) => Some(s@),
                None => None,
            },
            refresh_token: match self.refresh_token {
                Some(s) => Some(s@),
                None => None,
            },
            email: match self.email {
                Some(s) => Some(s@),
                None => None,
            },
            name: match self.name {
                Some(s) => Some(s@),
                None => None,
            },
            user_id: match self.user_id {
                Some(s) => Some(s@),
                None => None,
            },
        }
    }
}

impl AppConfig {
    /// Either both tokens are present or both are absent.
    pub open spec fn tokens_paired(self) -> bool {
        self.access_token is Some <==> self.refresh_token is Some
    }

    /// All five fields are absent.
    pub open spec fn is_empty(self) -> bool {
        &&& self.access_token is None
        &&& self.refresh_token is None
        &&& self.email is None
        &&& self.name is None
        &&& self.user_id is None
    }

    /// A fresh store, before any login.
    pub fn new() -> (r: AppConfig)
        ensures
            r.is_empty(),
            r.tokens_paired(),
    {
        AppConfig {
            access_token: None,
            refresh_token: None,
            email: None,
            name: None,
            user_id: None,
        }
    }

    /// Reset every field to absent; the caller persists the result.
    pub fn clear(&mut self)
        ensures
            final(self).is_empty(),
            final(self).tokens_paired(),
    {
        self.access_token = None;
        self.refresh_token = None;
        self.email = None;
        self.name = None;
        self.user_id = None;
    }

    /// Replace the whole session at once, as a login or a successful refresh
    /// does; the caller persists the result.
    pub fn set_session(
        &mut self,
        access_token: String,
        refresh_token: String,
        email: String,
        name: String,
        user_id: String,
    )
        ensures
            final(self).access_token == Some(access_token),
            final(self).refresh_token == Some(refresh_token),
            final(self).email == Some(email),
            final(self).name == Some(name),
            final(self).user_id == Some(user_id),
            final(self).tokens_paired(),
    {
        self.access_token = Some(access_token);
        self.refresh_token = Some(refresh_token);
        self.email = Some(email);
        self.name = Some(name);
        self.user_id = Some(user_id);
    }

    /// Whether an access token is on hand, the precondition every
    /// authorized operation checks before it starts.
    pub fn has_access_token(&self) -> (r: bool)
        ensures
            r == (self.access_token is Some),
    {
        self.access_token.is_some()
    }
}

} // verus!
