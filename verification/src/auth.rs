//! Obtaining the credential for the origin, and keeping it for a day.
//!
//! The credential lives in one slot of the key-value store. A request first
//! reads the slot. A credential found there is used as long as it is fresh;
//! otherwise the origin is asked for a new one, which replaces the old one
//! whole.

use vstd::prelude::*;
use vstd::string::*;

use crate::error::Error;
use crate::host::{
    is_success, succeeded, Action, CachedCredential, Event, Expect, Namespace, Payload, Progress,
    Stored, CREDENTIAL_KEY, CREDENTIAL_TTL,
};
use crate::origin::{authorize_request, spec_authorize_request, AuthResponse};

verus! {

/// How far the search for a credential has come.
#[derive(Clone, Debug, PartialEq, Eq)]
pub enum AuthState {
    /// Nothing has been done.
    Start,
    /// The cache slot is being read.
    ReadingCache,
    /// The cache held nothing fresh; the configured secrets are being
    /// looked up.
    ReadingSecrets,
    /// The origin has been asked for a credential.
    Authenticating,
    /// The new credential is being written to the cache.
    Storing(AuthResponse),
}

impl AuthState {
    /// How many steps the search can still take.
    pub open spec fn steps_left(self) -> nat {
        match self {
            AuthState::Start => 5,
            AuthState::ReadingCache => 4,
            AuthState::ReadingSecrets => 3,
            AuthState::Authenticating => 2,
            AuthState::Storing(_) => 1,
        }
    }
}

/// The search failed, and says so.
pub open spec fn auth_failed(out: Progress<AuthState, Result<AuthResponse, Error>>) -> bool {
    out matches Progress::Finished(Err(e)) && e is AuthError && e.text() == "Authorization error"@
}

/// The search goes on to look up the configured secrets.
pub open spec fn asks_secrets(out: Progress<AuthState, Result<AuthResponse, Error>>) -> bool {
    out matches Progress::Continue(next, action) && next == AuthState::ReadingSecrets && action
        == Action::ReadSecrets
}

/// One step of the search for a credential, at the second `now`.
///
/// The first step reads the cache slot. A fresh credential found there is
/// the result, and the origin is not asked. Where the slot is empty or
/// holds a stale credential, the secrets are looked up and the origin is
/// asked once. A new credential is cached as issued at `now`, good for a
/// day, and is the result once the cache has taken it. Everything else ends the search
/// with an `AuthError`: a reply that is no success or cannot be read, a
/// missing secret, a cache that cannot be read or written, and any event
/// that does not answer the last action.
pub open spec fn authorize_yields(
    state: AuthState,
    event: Event,
    now: u64,
    out: Progress<AuthState, Result<AuthResponse, Error>>,
) -> bool {
    match state {
        AuthState::Start => out matches Progress::Continue(next, action) && next
            == AuthState::ReadingCache && action.loads(Namespace::Credentials, CREDENTIAL_KEY@),
        AuthState::ReadingCache => match event {
            Event::Loaded(Some(Stored::Credential(cached))) => if cached.is_fresh(now) {
                out == Progress::<AuthState, Result<AuthResponse, Error>>::Finished(
                    Ok(cached.auth),
                )
            } else {
                asks_secrets(out)
            },
            Event::Loaded(None) => asks_secrets(out),
            _ => auth_failed(out),
        },
        AuthState::ReadingSecrets => match event {
            Event::Secrets(Some(secrets)) => out matches Progress::Continue(next, action) && next
                == AuthState::Authenticating && action.sends(
                spec_authorize_request(secrets.key_id@, secrets.key_secret@),
                Expect::Credential,
            ),
            _ => auth_failed(out),
        },
        AuthState::Authenticating => match event {
            Event::Replied { status, body: Payload::Credential(auth) } => if is_success(status) {
                out matches Progress::Continue(next, action) && next == AuthState::Storing(auth)
                    && action.saves_credential(auth, now)
            } else {
                auth_failed(out)
            },
            _ => auth_failed(out),
        },
        AuthState::Storing(auth) => match event {
            Event::Saved => out == Progress::<AuthState, Result<AuthResponse, Error>>::Finished(
                Ok(auth),
            ),
            _ => auth_failed(out),
        },
    }
}

/// The credential that a step of the search ends with, if it ends with
/// one: a fresh one found in the cache, or a new one that the cache has
/// taken.
pub open spec fn granted(state: AuthState, event: Event, now: u64) -> Option<AuthResponse> {
    match (state, event) {
        (AuthState::ReadingCache, Event::Loaded(Some(Stored::Credential(cached)))) => if cached.is_fresh(
            now,
        ) {
            Some(cached.auth)
        } else {
            None
        },
        (AuthState::Storing(auth), Event::Saved) => Some(auth),
        _ => None,
    }
}

fn fail() -> (out: Progress<AuthState, Result<AuthResponse, Error>>)
    ensures
        auth_failed(out),
{
    Progress::Finished(Err(Error::auth("Authorization error")))
}

/// Takes the search for a credential one step further.
pub fn authorize(state: AuthState, event: Event, now: u64) -> (out: Progress<
    AuthState,
    Result<AuthResponse, Error>,
>)
    ensures
        authorize_yields(state, event, now, out),
        out matches Progress::Finished(Ok(credential)) ==> granted(state, event, now) == Some(
            credential,
        ),
        granted(state, event, now) is Some ==> out matches Progress::Finished(Ok(_)),
{
    match state {
        AuthState::Start => Progress::Continue(
            AuthState::ReadingCache,
            Action::Load {
                namespace: Namespace::Credentials,
                key: String::from_str(CREDENTIAL_KEY),
            },
        ),
        AuthState::ReadingCache => match event {
            Event::Loaded(Some(Stored::Credential(cached))) => {
                if cached.is_fresh(now) {
                    Progress::Finished(Ok(cached.auth))
                } else {
                    Progress::Continue(AuthState::ReadingSecrets, Action::ReadSecrets)
                }
            },
            Event::Loaded(None) => Progress::Continue(
                AuthState::ReadingSecrets,
                Action::ReadSecrets,
            ),
            _ => fail(),
        },
        AuthState::ReadingSecrets => match event {
            Event::Secrets(Some(secrets)) => {
                let request = authorize_request(
                    secrets.key_id.as_str(),
                    secrets.key_secret.as_str(),
                );
                Progress::Continue(
                    AuthState::Authenticating,
                    Action::Send { request, expect: Expect::Credential },
                )
            },
            _ => fail(),
        },
        AuthState::Authenticating => match event {
            Event::Replied { status, body: Payload::Credential(auth) } => {
                if succeeded(status) {
                    let cached = CachedCredential { auth: auth.duplicate(), issued_at: now };
                    Progress::Continue(
                        AuthState::Storing(auth),
                        Action::Save {
                            namespace: Namespace::Credentials,
                            key: String::from_str(CREDENTIAL_KEY),
                            value: Stored::Credential(cached),
                            ttl: Some(CREDENTIAL_TTL),
                        },
                    )
                } else {
                    fail()
                }
            },
            _ => fail(),
        },
        AuthState::Storing(auth) => match event {
            Event::Saved => Progress::Finished(Ok(auth)),
            _ => fail(),
        },
    }
}

} // verus!
