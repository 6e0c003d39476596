//! The conversation between the service and its host.
//!
//! The service never talks to the network or to the key-value store itself.
//! Each of its procedures is a step function: it takes the state it was left
//! in and the event that ended the last action, and returns either the next
//! state with the action the host is to perform, or the result.

use vstd::prelude::*;
use vstd::string::*;

use crate::origin::{AuthResponse, HttpRequest, HttpRequestView, UploadFileResponse, UploadUrlResponse};
use crate::record::{StoredImage, StoredImageView};
use crate::transfer::UploadState;

verus! {

/// The key under which the credential is cached.
pub const CREDENTIAL_KEY: &'static str = "b2";

/// How long a credential is good for, in seconds: a day.
pub const CREDENTIAL_TTL: u64 = 86400;

/// A part of the key-value store.
#[derive(Clone, Copy, Debug, PartialEq, Eq, Structural)]
pub enum Namespace {
    /// Holds the cached credential.
    Credentials,
    /// Holds one record per image.
    Images,
}

impl Namespace {
    /// The name of the binding under which the host knows the namespace.
    pub open spec fn spec_name(self) -> Seq<char> {
        match self {
            Namespace::Credentials => "CREDENTIALS"@,
            Namespace::Images => "IMAGE"@,
        }
    }

    /// The name of the binding under which the host knows the namespace.
    pub fn name(self) -> (name: &'static str)
        ensures
            name@ == self.spec_name(),
    {
        match self {
            Namespace::Credentials => "CREDENTIALS",
            Namespace::Images => "IMAGE",
        }
    }
}

/// The configured key id and secret with which a credential is asked for.
#[derive(Clone, Debug, PartialEq, Eq)]
pub struct Secrets {
    pub key_id: String,
    pub key_secret: String,
}

/// A credential as it is cached: with the second at which it was issued.
/// It is good for a day from then.
#[derive(Clone, Debug, PartialEq, Eq)]
pub struct CachedCredential {
    pub auth: AuthResponse,
    pub issued_at: u64,
}

impl CachedCredential {
    /// The instant at which the credential stops being good: a day after it
    /// was issued.
    pub open spec fn expires_at(&self) -> int {
        self.issued_at + CREDENTIAL_TTL
    }

    /// Whether the credential may be used at the given second: from the
    /// second it was issued until it expires.
    pub open spec fn spec_is_fresh(&self, now: u64) -> bool {
        self.issued_at <= now < self.expires_at()
    }

    /// Whether the credential may be used at the given second.
    #[verifier::when_used_as_spec(spec_is_fresh)]
    pub fn is_fresh(&self, now: u64) -> (fresh: bool)
        ensures
            fresh == self.spec_is_fresh(now),
    {
        self.issued_at <= now && now - self.issued_at < CREDENTIAL_TTL
    }
}

/// A value of the key-value store.
#[derive(Clone, Debug, PartialEq, Eq)]
pub enum Stored {
    Credential(CachedCredential),
    Record(StoredImage),
}

/// What the host is to read from the reply to a request.
#[derive(Clone, Copy, Debug, PartialEq, Eq, Structural)]
pub enum Expect {
    Credential,
    UploadUrl,
    Receipt,
    Bytes,
}

/// What the host read from a reply.
#[derive(Clone, Debug, PartialEq, Eq)]
pub enum Payload {
    Credential(AuthResponse),
    UploadUrl(UploadUrlResponse),
    Receipt(UploadFileResponse),
    Bytes(Vec<u8>),
    /// The body was not what was expected.
    Unreadable,
}

/// What the host is to do next.
#[derive(Clone, Debug, PartialEq, Eq)]
pub enum Action {
    /// Look up the configured key id and secret.
    ReadSecrets,
    /// Read a value of the key-value store.
    Load { namespace: Namespace, key: String },
    /// Write a value of the key-value store, whole, with an optional time to
    /// live in seconds.
    Save { namespace: Namespace, key: String, value: Stored, ttl: Option<u64> },
    /// Send a request to the origin and read the reply.
    Send { request: HttpRequest, expect: Expect },
    /// Run these uploads side by side, each to its end, and report for each,
    /// in this order, whether it succeeded.
    UploadAll { uploads: Vec<UploadState> },
}

/// What ended the last action.
#[derive(Clone, Debug, PartialEq, Eq)]
pub enum Event {
    /// Nothing has been done yet.
    Start,
    /// The configured secrets, or `None` where one is missing.
    Secrets(Option<Secrets>),
    /// The value read, or `None` where there is none.
    Loaded(Option<Stored>),
    /// The value was written.
    Saved,
    /// The origin replied.
    Replied { status: u16, body: Payload },
    /// The uploads have all ended.
    Uploaded(Vec<bool>),
    /// The action could not be carried out.
    Failed,
}

/// How far a procedure has come.
#[derive(Clone, Debug, PartialEq, Eq)]
pub enum Progress<S, T> {
    /// The host is to perform the action and come back with its event.
    Continue(S, Action),
    /// The procedure has ended.
    Finished(T),
}

/// Whether a status code stands for success.
pub open spec fn is_success(status: u16) -> bool {
    200 <= status < 300
}

/// Whether a status code stands for success.
pub fn succeeded(status: u16) -> (ok: bool)
    ensures
        ok == is_success(status),
{
    200 <= status && status < 300
}

impl Action {
    /// The action reads the given key of the given namespace.
    pub open spec fn loads(self, namespace: Namespace, key: Seq<char>) -> bool {
        self matches Action::Load { namespace: n, key: k } && n == namespace && k@ == key
    }

    /// The action sends the given request and expects the given kind of
    /// reply.
    pub open spec fn sends(self, request: HttpRequestView, expect: Expect) -> bool {
        self matches Action::Send { request: r, expect: e } && r@ == request && e == expect
    }

    /// The action caches the credential as issued at the given second, and
    /// lets the store drop it after a day.
    pub open spec fn saves_credential(self, auth: AuthResponse, issued_at: u64) -> bool {
        &&& self matches Action::Save { namespace, key, value, ttl }
        &&& namespace == Namespace::Credentials
        &&& key@ == CREDENTIAL_KEY@
        &&& ttl == Some(CREDENTIAL_TTL)
        &&& value matches Stored::Credential(c)
        &&& c.auth == auth
        &&& c.issued_at == issued_at
    }

    /// The action writes the record of the given image, to stay.
    pub open spec fn saves_record(self, key: Seq<char>, record: StoredImageView) -> bool {
        &&& self matches Action::Save { namespace, key: k, value, ttl }
        &&& namespace == Namespace::Images
        &&& k@ == key
        &&& ttl is None
        &&& value matches Stored::Record(r)
        &&& r@ == record
    }
}

} // verus!
