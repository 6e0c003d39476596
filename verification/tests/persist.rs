use edge_images::host::{Action, Event, Expect, Namespace, Payload, Progress, Stored};
use edge_images::origin::{
    upload_url_request, AllowedBucket, AuthResponse, UploadFileResponse, UploadUrlResponse,
};
use edge_images::persist::{upload_on_background, PersistOutcome, PersistState};
use edge_images::record::StoredImage;
use edge_images::transfer::{upload_request, UploadJob, UploadState};

fn credential() -> AuthResponse {
    AuthResponse {
        api_url: "https://api001.example.com".to_string(),
        authorization_token: "token-1".to_string(),
        allowed: AllowedBucket { bucket_id: "bucket-id".to_string(), bucket_name: "pictures".to_string() },
        download_url: "https://f001.example.com".to_string(),
    }
}

fn job() -> UploadJob {
    UploadJob {
        file: vec![1, 2, 3],
        auth: credential(),
        mime: "image/jpeg".to_string(),
        name: "photos/cat".to_string(),
        suffix: "500".to_string(),
        ext: "jpg".to_string(),
    }
}

fn record(variants: &[u32]) -> StoredImage {
    StoredImage {
        id: "id-1".to_string(),
        name: "photos/cat".to_string(),
        format: "jpg".to_string(),
        width: 2000,
        variants: variants.to_vec(),
    }
}

fn uploading(upload: UploadState) -> PersistState {
    PersistState::Uploading { key: "photos/cat.jpg".to_string(), width: 500, upload }
}

fn reloading() -> PersistState {
    PersistState::Reloading { key: "photos/cat.jpg".to_string(), width: 500 }
}

#[test]
fn the_steps_of_the_upload_are_passed_on() {
    assert_eq!(
        upload_on_background(uploading(UploadState::Start(job())), Event::Start),
        Progress::Continue(
            uploading(UploadState::RequestingUrl(job())),
            Action::Send { request: upload_url_request(&credential()), expect: Expect::UploadUrl }
        )
    );
    let target = UploadUrlResponse { upload_url: "https://pod/1".to_string(), authorization_token: "u".to_string() };
    assert_eq!(
        upload_on_background(
            uploading(UploadState::RequestingUrl(job())),
            Event::Replied { status: 200, body: Payload::UploadUrl(target.clone()) }
        ),
        Progress::Continue(
            uploading(UploadState::Sending),
            Action::Send { request: upload_request(&target, job()), expect: Expect::Receipt }
        )
    );
}

#[test]
fn a_failed_upload_is_swallowed() {
    assert_eq!(
        upload_on_background(uploading(UploadState::RequestingUrl(job())), Event::Failed),
        Progress::Finished(PersistOutcome::Abandoned)
    );
    assert_eq!(
        upload_on_background(
            uploading(UploadState::Sending),
            Event::Replied { status: 500, body: Payload::Unreadable }
        ),
        Progress::Finished(PersistOutcome::Abandoned)
    );
}

#[test]
fn the_record_is_read_again_after_the_upload() {
    let receipt = UploadFileResponse { file_id: "f".to_string(), file_name: "n".to_string() };
    assert_eq!(
        upload_on_background(
            uploading(UploadState::Sending),
            Event::Replied { status: 200, body: Payload::Receipt(receipt) }
        ),
        Progress::Continue(
            reloading(),
            Action::Load { namespace: Namespace::Images, key: "photos/cat.jpg".to_string() }
        )
    );
}

#[test]
fn the_width_is_added_to_the_record_as_it_is_now() {
    assert_eq!(
        upload_on_background(reloading(), Event::Loaded(Some(Stored::Record(record(&[320, 640]))))),
        Progress::Continue(
            PersistState::Saving,
            Action::Save {
                namespace: Namespace::Images,
                key: "photos/cat.jpg".to_string(),
                value: Stored::Record(record(&[320, 640, 500])),
                ttl: None,
            }
        )
    );
}

#[test]
fn a_width_that_is_listed_is_not_written_again() {
    assert_eq!(
        upload_on_background(reloading(), Event::Loaded(Some(Stored::Record(record(&[320, 500]))))),
        Progress::Finished(PersistOutcome::Unchanged)
    );
}

#[test]
fn a_width_that_the_record_no_longer_admits_is_not_written() {
    let mut narrow = record(&[320]);
    narrow.width = 400;
    assert_eq!(
        upload_on_background(reloading(), Event::Loaded(Some(Stored::Record(narrow)))),
        Progress::Finished(PersistOutcome::Unchanged)
    );
}

#[test]
fn a_missing_record_ends_the_work() {
    assert_eq!(
        upload_on_background(reloading(), Event::Loaded(None)),
        Progress::Finished(PersistOutcome::Abandoned)
    );
    assert_eq!(upload_on_background(reloading(), Event::Failed), Progress::Finished(PersistOutcome::Abandoned));
}

#[test]
fn the_work_ends_with_the_write() {
    assert_eq!(upload_on_background(PersistState::Saving, Event::Saved), Progress::Finished(PersistOutcome::Persisted));
    assert_eq!(upload_on_background(PersistState::Saving, Event::Failed), Progress::Finished(PersistOutcome::Abandoned));
}

#[test]
fn storing_a_width_twice_lists_it_once() {
    let first = upload_on_background(reloading(), Event::Loaded(Some(Stored::Record(record(&[320])))));
    let written = match first {
        Progress::Continue(_, Action::Save { value: Stored::Record(written), .. }) => written,
        other => panic!("{:?}", other),
    };
    assert_eq!(written.variants, vec![320, 500]);
    assert_eq!(
        upload_on_background(reloading(), Event::Loaded(Some(Stored::Record(written)))),
        Progress::Finished(PersistOutcome::Unchanged)
    );
}
