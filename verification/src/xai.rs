//! Tokens of an xAI subscription.
use vstd::prelude::*;

use crate::model::opt;
use crate::text::{cat, same};

verus! {

broadcast use crate::model::group_views;

/// How many seconds before they expire tokens are refreshed. xAI tokens live
/// about an hour.
pub const REFRESH_EARLY_SECONDS: u64 = 300;

/// A token set of an xAI subscription.
#[derive(Clone)]
pub struct XaiTokens {
    pub access_token: String,
    pub refresh_token: Option<String>,
    /// When the access token expires, in seconds of the Unix epoch.
    pub expires_at: Option<i64>,
}

/// A token set of an xAI subscription.
#[verifier::ext_equal]
pub struct XaiTokensView {
    pub access_token: Seq<char>,
    pub refresh_token: Option<Seq<char>>,
    pub expires_at: Option<i64>,
}

impl View for XaiTokens {
    type V = XaiTokensView;

    open spec fn view(&self) -> XaiTokensView {
        XaiTokensView {
            access_token: self.access_token@,
            refresh_token: opt(self.refresh_token),
            expires_at: self.expires_at,
        }
    }
}

impl XaiTokens {
    pub fn access_token(&self) -> (r: &str)
        ensures
            r@ == self@.access_token,
    {
        self.access_token.as_str()
    }

    pub fn refresh_token(&self) -> (r: Option<&str>)
        ensures
            opt(r) == self@.refresh_token,
    {
        match &self.refresh_token {
            Some(token) => Some(token.as_str()),
            None => None,
        }
    }

    pub fn expires_at(&self) -> (r: Option<i64>)
        ensures
            r == self@.expires_at,
    {
        self.expires_at
    }

    /// The tokens after a refresh: the new ones, with nothing kept.
    pub fn merge_refreshed(_previous: &XaiTokens, refreshed: XaiTokens) -> (r: XaiTokens)
        ensures
            r@ == refreshed@,
    {
        refreshed
    }

    /// Whether the access token expires soon enough to be refreshed now.
    pub fn needs_refresh(&self, now: i64) -> (r: bool)
        ensures
            r == (self@.expires_at matches Some(t) && t - REFRESH_EARLY_SECONDS <= now),
    {
        match self.expires_at {
            Some(t) => t as i128 - REFRESH_EARLY_SECONDS as i128 <= now as i128,
            None => false,
        }
    }

    /// Whether a token that a request carried is still the current one. Where
    /// it is not, another request has refreshed it meanwhile.
    pub fn is_current(&self, carried: Option<&str>) -> (r: bool)
        ensures
            r == (opt(carried) == Some(self@.access_token)),
    {
        match carried {
            Some(token) => same(token, self.access_token.as_str()),
            None => false,
        }
    }

    /// The value of the `authorization` header: the access token acts as a
    /// plain API key on `api.x.ai`.
    pub fn authorization(&self) -> (r: String)
        ensures
            r@ == "Bearer "@ + self@.access_token,
    {
        cat("Bearer ", self.access_token.as_str())
    }
}

} // verus!
