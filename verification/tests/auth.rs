use edge_images::auth::{authorize, AuthState};
use edge_images::error::Error;
use edge_images::host::{
    Action, CachedCredential, Event, Expect, Namespace, Payload, Progress, Secrets, Stored,
    CREDENTIAL_KEY, CREDENTIAL_TTL,
};
use edge_images::origin::{authorize_request, AllowedBucket, AuthResponse};
use edge_images::record::StoredImage;

fn credential(token: &str) -> AuthResponse {
    AuthResponse {
        api_url: "https://api001.example.com".to_string(),
        authorization_token: token.to_string(),
        allowed: AllowedBucket { bucket_id: "bucket-id".to_string(), bucket_name: "pictures".to_string() },
        download_url: "https://f001.example.com".to_string(),
    }
}

fn failed() -> Progress<AuthState, Result<AuthResponse, Error>> {
    Progress::Finished(Err(Error::AuthError("Authorization error".to_string())))
}

#[test]
fn the_search_begins_at_the_cache() {
    assert_eq!(
        authorize(AuthState::Start, Event::Start, 1000),
        Progress::Continue(
            AuthState::ReadingCache,
            Action::Load { namespace: Namespace::Credentials, key: "b2".to_string() }
        )
    );
    assert_eq!(CREDENTIAL_KEY, "b2");
    assert_eq!(Namespace::Credentials.name(), "CREDENTIALS");
    assert_eq!(Namespace::Images.name(), "IMAGE");
}

#[test]
fn a_fresh_credential_is_used() {
    let cached = CachedCredential { auth: credential("t"), issued_at: 2000 };
    for now in [2000, 2001, 2000 + 86399] {
        assert_eq!(
            authorize(AuthState::ReadingCache, Event::Loaded(Some(Stored::Credential(cached.clone()))), now),
            Progress::Finished(Ok(credential("t")))
        );
        assert!(cached.is_fresh(now));
    }
    assert!(!cached.is_fresh(2000 + 86400));
    assert!(!cached.is_fresh(1999));
}

#[test]
fn a_stale_credential_is_not_used() {
    let cached = CachedCredential { auth: credential("t"), issued_at: 2000 };
    for now in [0, 1999, 2000 + 86400, 2000 + 86401, u64::MAX] {
        assert_eq!(
            authorize(AuthState::ReadingCache, Event::Loaded(Some(Stored::Credential(cached.clone()))), now),
            Progress::Continue(AuthState::ReadingSecrets, Action::ReadSecrets)
        );
    }
}

#[test]
fn an_empty_cache_leads_to_the_secrets() {
    assert_eq!(
        authorize(AuthState::ReadingCache, Event::Loaded(None), 5),
        Progress::Continue(AuthState::ReadingSecrets, Action::ReadSecrets)
    );
}

#[test]
fn a_cache_that_cannot_be_read_fails_the_search() {
    assert_eq!(authorize(AuthState::ReadingCache, Event::Failed, 5), failed());
    let record = StoredImage { id: "".into(), name: "".into(), format: "".into(), width: 0, variants: vec![] };
    assert_eq!(authorize(AuthState::ReadingCache, Event::Loaded(Some(Stored::Record(record))), 5), failed());
    assert_eq!(authorize(AuthState::ReadingCache, Event::Saved, 5), failed());
}

#[test]
fn the_secrets_make_the_request() {
    let secrets = Secrets { key_id: "Aladdin".to_string(), key_secret: "open sesame".to_string() };
    assert_eq!(
        authorize(AuthState::ReadingSecrets, Event::Secrets(Some(secrets)), 5),
        Progress::Continue(
            AuthState::Authenticating,
            Action::Send { request: authorize_request("Aladdin", "open sesame"), expect: Expect::Credential }
        )
    );
}

#[test]
fn a_missing_secret_fails_the_search() {
    assert_eq!(authorize(AuthState::ReadingSecrets, Event::Secrets(None), 5), failed());
    assert_eq!(authorize(AuthState::ReadingSecrets, Event::Failed, 5), failed());
}

#[test]
fn a_new_credential_is_cached_for_a_day() {
    let reply = Event::Replied { status: 200, body: Payload::Credential(credential("new")) };
    assert_eq!(
        authorize(AuthState::Authenticating, reply, 1_000_000),
        Progress::Continue(
            AuthState::Storing(credential("new")),
            Action::Save {
                namespace: Namespace::Credentials,
                key: "b2".to_string(),
                value: Stored::Credential(CachedCredential { auth: credential("new"), issued_at: 1_000_000 }),
                ttl: Some(86400),
            }
        )
    );
    assert_eq!(CREDENTIAL_TTL, 24 * 60 * 60);
}

#[test]
fn a_credential_issued_in_the_clock_s_last_day_is_good_to_its_end() {
    let cached = CachedCredential { auth: credential("t"), issued_at: u64::MAX - 10 };
    assert!(cached.is_fresh(u64::MAX - 10));
    assert!(cached.is_fresh(u64::MAX));
    assert!(!cached.is_fresh(u64::MAX - 11));
    let cached = CachedCredential { auth: credential("t"), issued_at: u64::MAX - 86400 };
    assert!(cached.is_fresh(u64::MAX - 1));
    assert!(!cached.is_fresh(u64::MAX));
}

#[test]
fn a_refusal_fails_the_search() {
    for status in [0u16, 199, 300, 401, 403, 500] {
        let reply = Event::Replied { status, body: Payload::Credential(credential("new")) };
        assert_eq!(authorize(AuthState::Authenticating, reply, 5), failed());
    }
    for status in [200u16, 204, 299] {
        let reply = Event::Replied { status, body: Payload::Credential(credential("new")) };
        assert!(matches!(authorize(AuthState::Authenticating, reply, 5), Progress::Continue(_, _)));
    }
}

#[test]
fn a_reply_that_cannot_be_read_fails_the_search() {
    assert_eq!(
        authorize(AuthState::Authenticating, Event::Replied { status: 200, body: Payload::Unreadable }, 5),
        failed()
    );
    assert_eq!(
        authorize(AuthState::Authenticating, Event::Replied { status: 200, body: Payload::Bytes(vec![1]) }, 5),
        failed()
    );
    assert_eq!(authorize(AuthState::Authenticating, Event::Failed, 5), failed());
}

#[test]
fn the_search_ends_once_the_cache_has_the_credential() {
    assert_eq!(
        authorize(AuthState::Storing(credential("new")), Event::Saved, 5),
        Progress::Finished(Ok(credential("new")))
    );
    assert_eq!(authorize(AuthState::Storing(credential("new")), Event::Failed, 5), failed());
}

#[test]
fn a_credential_is_reused_within_its_day_and_refreshed_after() {
    let issued = 1_700_000_000u64;
    let reply = Event::Replied { status: 200, body: Payload::Credential(credential("new")) };
    let cached = match authorize(AuthState::Authenticating, reply, issued) {
        Progress::Continue(_, Action::Save { value: Stored::Credential(cached), .. }) => cached,
        other => panic!("{:?}", other),
    };
    for later in [issued, issued + 1, issued + 86399] {
        assert_eq!(
            authorize(AuthState::ReadingCache, Event::Loaded(Some(Stored::Credential(cached.clone()))), later),
            Progress::Finished(Ok(credential("new")))
        );
    }
    for later in [issued + 86400, issued + 86401, issued + 10 * 86400] {
        assert_eq!(
            authorize(AuthState::ReadingCache, Event::Loaded(Some(Stored::Credential(cached.clone()))), later),
            Progress::Continue(AuthState::ReadingSecrets, Action::ReadSecrets)
        );
    }
}
