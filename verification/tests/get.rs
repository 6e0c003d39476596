use std::io::Cursor;

use edge_images::auth::AuthState;
use edge_images::codec::Format;
use edge_images::error::Error;
use edge_images::get::{
    get, get_image, resolved, synthesize, synthesized, DerivativeRequest, GetState, Reply, Served,
    Synthesis,
};
use edge_images::host::{Action, CachedCredential, Event, Expect, Namespace, Payload, Progress, Stored};
use edge_images::origin::{download_request, AllowedBucket, AuthResponse};
use edge_images::persist::PersistState;
use edge_images::record::StoredImage;
use edge_images::transfer::{UploadJob, UploadState};

fn credential() -> AuthResponse {
    AuthResponse {
        api_url: "https://api001.example.com".to_string(),
        authorization_token: "token-1".to_string(),
        allowed: AllowedBucket { bucket_id: "bucket-id".to_string(), bucket_name: "pictures".to_string() },
        download_url: "https://f001.example.com".to_string(),
    }
}

fn record(variants: &[u32]) -> StoredImage {
    StoredImage {
        id: "id-1".to_string(),
        name: "photos/cat".to_string(),
        format: "png".to_string(),
        width: 2000,
        variants: variants.to_vec(),
    }
}

fn request(width: Option<u32>) -> DerivativeRequest {
    DerivativeRequest { key: "photos/cat.png".to_string(), width }
}

fn plan(width: u32) -> Synthesis {
    Synthesis {
        key: "photos/cat.png".to_string(),
        credential: credential(),
        name: "photos/cat".to_string(),
        ext: "png".to_string(),
        format: Format::Png,
        width,
        content_type: "image/png".to_string(),
    }
}

fn png(width: u32, height: u32) -> Vec<u8> {
    let pixels = image::RgbaImage::from_pixel(width, height, image::Rgba([10, 200, 30, 255]));
    let mut out = Cursor::new(Vec::new());
    image::DynamicImage::ImageRgba8(pixels).write_to(&mut out, image::ImageFormat::Png).unwrap();
    out.into_inner()
}

fn fetch(suffix: &str) -> Action {
    Action::Send { request: download_request("photos/cat", suffix, "png", &credential()), expect: Expect::Bytes }
}

#[test]
fn get_image_reads_the_width() {
    assert_eq!(get_image("photos/cat.png", None), Ok(GetState::new("photos/cat.png".to_string(), None)));
    assert_eq!(
        get_image("photos/cat.png", Some("500")),
        Ok(GetState::Authorizing { request: request(Some(500)), auth: AuthState::Start })
    );
    assert_eq!(
        get_image("photos/cat.png", Some("")),
        Err(Error::InternalError("Non numeric parameter is provided".to_string()))
    );
    assert_eq!(
        get_image("photos/cat.png", Some("-5")),
        Err(Error::InternalError("Non numeric parameter is provided".to_string()))
    );
}

#[test]
fn a_request_begins_with_the_search_for_a_credential() {
    assert_eq!(
        get(GetState::new("k".to_string(), Some(5)), Event::Start, 10),
        Progress::Continue(
            GetState::Authorizing {
                request: DerivativeRequest { key: "k".to_string(), width: Some(5) },
                auth: AuthState::ReadingCache
            },
            Action::Load { namespace: Namespace::Credentials, key: "b2".to_string() }
        )
    );
}

#[test]
fn a_credential_leads_to_the_record() {
    let cached = CachedCredential { auth: credential(), issued_at: 5 };
    assert_eq!(
        get(
            GetState::Authorizing { request: request(Some(5)), auth: AuthState::ReadingCache },
            Event::Loaded(Some(Stored::Credential(cached))),
            10
        ),
        Progress::Continue(
            GetState::LoadingRecord { request: request(Some(5)), credential: credential() },
            Action::Load { namespace: Namespace::Images, key: "photos/cat.png".to_string() }
        )
    );
}

#[test]
fn a_failed_search_ends_the_request() {
    assert_eq!(
        get(
            GetState::Authorizing { request: request(None), auth: AuthState::Authenticating },
            Event::Replied { status: 401, body: Payload::Unreadable },
            10
        ),
        Progress::Finished(Err(Error::AuthError("Authorization error".to_string())))
    );
}

#[test]
fn a_missing_record_is_not_found() {
    let state = GetState::LoadingRecord { request: request(None), credential: credential() };
    assert_eq!(
        get(state, Event::Loaded(None), 10),
        Progress::Finished(Err(Error::NotFoundError("File not found.".to_string())))
    );
}

#[test]
fn a_store_that_cannot_be_read_is_an_upstream_failure() {
    let state = || GetState::LoadingRecord { request: request(None), credential: credential() };
    let failed = Progress::Finished(Err(Error::UpstreamError("Cannot read the image record".to_string())));
    assert_eq!(get(state(), Event::Failed, 10), failed);
    let cached = CachedCredential { auth: credential(), issued_at: 5 };
    assert_eq!(get(state(), Event::Loaded(Some(Stored::Credential(cached))), 10), failed);
}

#[test]
fn the_record_decides_what_is_fetched() {
    let stored = |ct: &str| GetState::FetchingStored { content_type: ct.to_string() };
    assert_eq!(
        resolved(request(None), credential(), record(&[320])),
        Progress::Continue(stored("image/png"), fetch("orig"))
    );
    assert_eq!(
        resolved(request(Some(2000)), credential(), record(&[320])),
        Progress::Continue(stored("image/png"), fetch("orig"))
    );
    assert_eq!(
        resolved(request(Some(320)), credential(), record(&[320])),
        Progress::Continue(stored("image/png"), fetch("320"))
    );
    assert_eq!(
        resolved(request(Some(500)), credential(), record(&[320])),
        Progress::Continue(GetState::FetchingSource(plan(500)), fetch("orig"))
    );
    let state = GetState::LoadingRecord { request: request(Some(500)), credential: credential() };
    assert_eq!(
        get(state, Event::Loaded(Some(Stored::Record(record(&[320])))), 10),
        Progress::Continue(GetState::FetchingSource(plan(500)), fetch("orig"))
    );
}

#[test]
fn a_record_of_an_unknown_format_ends_the_request() {
    let mut odd = record(&[]);
    odd.format = "svg".to_string();
    assert_eq!(
        resolved(request(Some(500)), credential(), odd.clone()),
        Progress::Finished(Err(Error::InternalError("Invalid format".to_string())))
    );
    let fetch = Action::Send {
        request: download_request("photos/cat", "orig", "svg", &credential()),
        expect: Expect::Bytes,
    };
    assert_eq!(
        resolved(request(None), credential(), odd),
        Progress::Continue(GetState::FetchingStored { content_type: "image/svg+xml".to_string() }, fetch)
    );
}

#[test]
fn a_stored_object_is_served_byte_for_byte() {
    let state = || GetState::FetchingStored { content_type: "image/png".to_string() };
    for status in [200u16, 206, 299] {
        assert_eq!(
            get(state(), Event::Replied { status, body: Payload::Bytes(vec![9, 8, 7]) }, 10),
            Progress::Finished(Ok(Served {
                reply: Reply { body: vec![9, 8, 7], content_type: "image/png".to_string() },
                persist: None
            }))
        );
    }
}

#[test]
fn a_stored_object_that_is_gone_is_not_found() {
    let state = || GetState::FetchingStored { content_type: "image/png".to_string() };
    assert_eq!(
        get(state(), Event::Replied { status: 404, body: Payload::Bytes(vec![1]) }, 10),
        Progress::Finished(Err(Error::NotFoundError("Image not found.".to_string())))
    );
    let failed = Progress::Finished(Err(Error::UpstreamError("Download failed".to_string())));
    for status in [0u16, 199, 300, 403, 500] {
        assert_eq!(get(state(), Event::Replied { status, body: Payload::Bytes(vec![1]) }, 10), failed);
    }
    assert_eq!(get(state(), Event::Replied { status: 200, body: Payload::Unreadable }, 10), failed);
    assert_eq!(get(state(), Event::Failed, 10), failed);
}

#[test]
fn the_original_must_arrive_to_make_a_variant() {
    let failed = Progress::Finished(Err(Error::UpstreamError("Original image not found.".to_string())));
    for status in [199u16, 300, 404, 500] {
        let reply = Event::Replied { status, body: Payload::Bytes(png(40, 20)) };
        assert_eq!(get(GetState::FetchingSource(plan(10)), reply, 10), failed);
    }
    assert_eq!(get(GetState::FetchingSource(plan(10)), Event::Failed, 10), failed);
    let reply = Event::Replied { status: 200, body: Payload::Unreadable };
    assert_eq!(get(GetState::FetchingSource(plan(10)), reply, 10), failed);
}

#[test]
fn a_new_variant_is_served_and_scheduled() {
    let reply = Event::Replied { status: 200, body: Payload::Bytes(png(40, 20)) };
    let served = match get(GetState::FetchingSource(plan(10)), reply, 10) {
        Progress::Finished(Ok(served)) => served,
        other => panic!("{:?}", other),
    };
    assert_eq!(served.reply.content_type, "image/png");
    let back = image::load_from_memory_with_format(&served.reply.body, image::ImageFormat::Png).unwrap();
    assert_eq!((back.width(), back.height()), (10, 5));
    let job = UploadJob {
        file: served.reply.body.clone(),
        auth: credential(),
        mime: "image/png".to_string(),
        name: "photos/cat".to_string(),
        suffix: "10".to_string(),
        ext: "png".to_string(),
    };
    assert_eq!(
        served.persist,
        Some(PersistState::Uploading {
            key: "photos/cat.png".to_string(),
            width: 10,
            upload: UploadState::Start(job.clone())
        })
    );
    assert_eq!(served.persist, Some(PersistState::new("photos/cat.png".to_string(), 10, job)));
}

#[test]
fn synthesize_fails_where_the_image_cannot_be_made() {
    assert!(matches!(synthesize(b"garbage", plan(10)), Progress::Finished(Err(Error::DecodeError(_)))));
    assert!(matches!(synthesize(&png(40, 20), plan(41)), Progress::Finished(Err(Error::DecodeError(_)))));
    assert!(matches!(synthesize(&png(40, 20), plan(0)), Progress::Finished(Err(Error::DecodeError(_)))));
    assert!(matches!(synthesize(&png(40, 20), plan(1)), Progress::Finished(Err(Error::DecodeError(_)))));
    assert!(matches!(synthesize(&png(40, 20), plan(2)), Progress::Finished(Ok(_))));
    assert!(matches!(synthesize(&png(40, 20), plan(40)), Progress::Finished(Ok(_))));
}

#[test]
fn synthesized_passes_the_encoder_s_refusal_on() {
    assert_eq!(
        synthesized(Err(Error::DecodeError("no".to_string())), plan(10)),
        Progress::Finished(Err(Error::DecodeError("no".to_string())))
    );
    let served = match synthesized(Ok(vec![1, 2, 3]), plan(10)) {
        Progress::Finished(Ok(served)) => served,
        other => panic!("{:?}", other),
    };
    assert_eq!(served.reply, Reply { body: vec![1, 2, 3], content_type: "image/png".to_string() });
    match served.persist {
        Some(PersistState::Uploading { key, width, upload: UploadState::Start(job) }) => {
            assert_eq!((key.as_str(), width), ("photos/cat.png", 10));
            assert_eq!(job.file, vec![1, 2, 3]);
            assert_eq!(job.suffix, "10");
        }
        other => panic!("{:?}", other),
    }
}
