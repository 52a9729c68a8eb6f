use vstd::prelude::*;

verus! {

/// A token as the authorization server issued it, with its lifetime
/// relative to the moment of issue.  Like every type that holds a secret it
/// has no `Debug`, so that no diagnostic output can show one.
#[derive(Clone)]
pub struct TokenResponse {
    pub access_token: String,
    pub refresh_token: Option<String>,
    pub token_type: String,
    /// Lifetime in seconds, when the server gave one.
    pub expires_in: Option<u64>,
    /// The identity token that some providers add.
    pub id_token: Option<String>,
}

/// A token as it is kept: the expiry is an absolute time in seconds,
/// computed once when the token was received.
#[derive(Clone)]
pub struct TokenRecord {
    pub access_token: String,
    pub refresh_token: Option<String>,
    pub token_type: String,
    /// Absolute expiry in seconds; `None` when the server gave no lifetime.
    pub expires_at: Option<u64>,
    pub id_token: Option<String>,
}

/// The abstract content of an optional string.
pub open spec fn opt_view(o: Option<String>) -> Option<Seq<char>> {
    match o {
        Some(s) => Some(s@),
        None => None,
    }
}

/// The absolute expiry of a lifetime that starts at `now`, saturated at the
/// largest representable time.
pub open spec fn expiry_of(now: u64, expires_in: Option<u64>) -> Option<u64> {
    match expires_in {
        Some(d) => Some(
            if now + d <= u64::MAX {
                (now + d) as u64
            } else {
                u64::MAX
            },
        ),
        None => None,
    }
}

/// A token is expired from its expiry on, with no grace period.
pub open spec fn expired_at(expires_at: Option<u64>, now: u64) -> bool {
    match expires_at {
        Some(e) => now >= e,
        None => false,
    }
}

fn clone_opt(o: &Option<String>) -> (r: Option<String>)
    ensures
        opt_view(r) == opt_view(*o),
{
    match o {
        Some(s) => Some(s.clone()),
        None => None,
    }
}

impl TokenRecord {
    /// A copy with the same content.
    pub fn duplicate(&self) -> (r: Self)
        ensures
            r.view() == self.view(),
    {
        TokenRecord {
            access_token: self.access_token.clone(),
            refresh_token: clone_opt(&self.refresh_token),
            token_type: self.token_type.clone(),
            expires_at: self.expires_at,
            id_token: clone_opt(&self.id_token),
        }
    }

    /// The record of a token received at `now`.
    pub fn from_response(response: TokenResponse, now: u64) -> (r: Self)
        ensures
            r.access_token@ == response.access_token@,
            opt_view(r.refresh_token) == opt_view(response.refresh_token),
            r.token_type@ == response.token_type@,
            r.expires_at == expiry_of(now, response.expires_in),
            opt_view(r.id_token) == opt_view(response.id_token),
    {
        let expires_at = match response.expires_in {
            Some(d) => Some(now.saturating_add(d)),
            None => None,
        };
        TokenRecord {
            access_token: response.access_token,
            refresh_token: response.refresh_token,
            token_type: response.token_type,
            expires_at,
            id_token: response.id_token,
        }
    }

    /// Whether the access token is expired at `now`: from the expiry on,
    /// with no grace period.
    pub fn has_expired(&self, now: u64) -> (r: bool)
        ensures
            r == expired_at(self.expires_at, now),
    {
        match self.expires_at {
            Some(e) => now >= e,
            None => false,
        }
    }

    /// The abstract content of the record.
    pub open spec fn view(&self) -> RecordView {
        RecordView {
            access_token: self.access_token@,
            refresh_token: opt_view(self.refresh_token),
            token_type: self.token_type@,
            expires_at: self.expires_at,
            id_token: opt_view(self.id_token),
        }
    }
}

/// The content of a token record, as sequences of characters.
pub struct RecordView {
    pub access_token: Seq<char>,
    pub refresh_token: Option<Seq<char>>,
    pub token_type: Seq<char>,
    pub expires_at: Option<u64>,
    pub id_token: Option<Seq<char>>,
}

/// A token is expired when its expiry equals the present time exactly, and
/// not when it expires one second later.
pub proof fn lemma_expiry_boundary(now: u64)
    requires
        now < u64::MAX,
    ensures
        expired_at(Some(now), now),
        !expired_at(Some((now + 1) as u64), now),
{
}

} // verus!
