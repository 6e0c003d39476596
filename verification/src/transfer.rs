//! Storing one object at the origin.
//!
//! An upload takes two requests: the first asks the origin where to send the
//! object, the second sends it there, with its name, its media type and the
//! hash of its content.

use vstd::prelude::*;
use vstd::string::*;

use crate::error::Error;
use crate::hex::hex_text;
use crate::host::{is_success, succeeded, Action, Event, Expect, Payload, Progress};
use crate::origin::{
    object_name, spec_object_name, spec_upload_url_request, upload_url_request, AuthResponse, Body,
    BodyView, Header, HttpRequest, HttpRequestView, Method, UploadFileResponse, UploadUrlResponse,
};
use crate::util::{content_hash, sha1_digest};

verus! {

/// One object to store: its content, the credential to store it with, and
/// what it is to be called.
#[derive(Clone, Debug, PartialEq, Eq)]
pub struct UploadJob {
    pub file: Vec<u8>,
    pub auth: AuthResponse,
    pub mime: String,
    pub name: String,
    pub suffix: String,
    pub ext: String,
}

/// An upload, as values of mathematics.
pub struct UploadJobView {
    pub file: Seq<u8>,
    pub auth: AuthResponse,
    pub mime: Seq<char>,
    pub name: Seq<char>,
    pub suffix: Seq<char>,
    pub ext: Seq<char>,
}

impl View for UploadJob {
    type V = UploadJobView;

    open spec fn view(&self) -> UploadJobView {
        UploadJobView {
            file: self.file@,
            auth: self.auth,
            mime: self.mime@,
            name: self.name@,
            suffix: self.suffix@,
            ext: self.ext@,
        }
    }
}

/// How far an upload has come.
#[derive(Clone, Debug, PartialEq, Eq)]
pub enum UploadState {
    /// Nothing has been sent.
    Start(UploadJob),
    /// The origin has been asked where to send the object.
    RequestingUrl(UploadJob),
    /// The object is on its way.
    Sending,
}

impl UploadState {
    /// The upload of the given object has yet to begin.
    pub open spec fn starts(self, job: UploadJobView) -> bool {
        self matches UploadState::Start(j) && j@ == job
    }
}

/// The request that sends an object to the place the origin named.
pub open spec fn spec_upload_request(target: UploadUrlResponse, job: UploadJobView)
    -> HttpRequestView {
    HttpRequestView {
        method: Method::Post,
        url: target.upload_url@,
        headers: seq![
            ("Authorization"@, target.authorization_token@),
            ("Content-Type"@, job.mime),
            ("X-Bz-File-Name"@, spec_object_name(job.name, job.suffix, job.ext)),
            ("X-Bz-Content-Sha1"@, hex_text(sha1_digest(job.file))),
        ],
        body: BodyView::Bytes(job.file),
    }
}

/// Builds the request that sends an object to the place the origin named.
pub fn upload_request(target: &UploadUrlResponse, job: UploadJob) -> (request: HttpRequest)
    ensures
        request@ == spec_upload_request(*target, job@),
{
    let hash = content_hash(job.file.as_slice());
    let mut headers: Vec<Header> = Vec::new();
    headers.push(
        Header {
            name: String::from_str("Authorization"),
            value: target.authorization_token.clone(),
        },
    );
    headers.push(Header { name: String::from_str("Content-Type"), value: job.mime });
    headers.push(
        Header {
            name: String::from_str("X-Bz-File-Name"),
            value: object_name(job.name.as_str(), job.suffix.as_str(), job.ext.as_str()),
        },
    );
    headers.push(Header { name: String::from_str("X-Bz-Content-Sha1"), value: hash });
    let request = HttpRequest {
        method: Method::Post,
        url: target.upload_url.clone(),
        headers,
        body: Body::Bytes(job.file),
    };
    assert(request@.headers =~= spec_upload_request(*target, job@).headers);
    request
}

/// Begins an upload: asks the origin where to send the object.
pub fn begin(job: UploadJob) -> (step: (UploadState, Action))
    ensures
        step.0 == UploadState::RequestingUrl(job),
        step.1.sends(spec_upload_url_request(job.auth), Expect::UploadUrl),
{
    let request = upload_url_request(&job.auth);
    (UploadState::RequestingUrl(job), Action::Send { request, expect: Expect::UploadUrl })
}

/// The upload failed, and says so.
pub open spec fn upload_failed(out: Progress<UploadState, Result<UploadFileResponse, Error>>)
    -> bool {
    out matches Progress::Finished(Err(e)) && e is UpstreamError && e.text() == "Upload failed"@
}

/// One step of an upload.
///
/// The first step asks the origin where to send the object. Once the origin
/// has named a place, the object is sent there. The upload succeeds with the
/// receipt that the origin returns for it. Any reply that is no success, or
/// cannot be read, and any event that does not answer the last action, ends
/// the upload with an `UpstreamError`.
pub open spec fn upload_file_yields(
    state: UploadState,
    event: Event,
    out: Progress<UploadState, Result<UploadFileResponse, Error>>,
) -> bool {
    match state {
        UploadState::Start(job) => out matches Progress::Continue(next, action) && next
            == UploadState::RequestingUrl(job) && action.sends(
            spec_upload_url_request(job.auth),
            Expect::UploadUrl,
        ),
        UploadState::RequestingUrl(job) => match event {
            Event::Replied { status, body: Payload::UploadUrl(target) } => if is_success(status) {
                out matches Progress::Continue(next, action) && next == UploadState::Sending
                    && action.sends(spec_upload_request(target, job@), Expect::Receipt)
            } else {
                upload_failed(out)
            },
            _ => upload_failed(out),
        },
        UploadState::Sending => match event {
            Event::Replied { status, body: Payload::Receipt(receipt) } => if is_success(status) {
                out == Progress::<UploadState, Result<UploadFileResponse, Error>>::Finished(
                    Ok(receipt),
                )
            } else {
                upload_failed(out)
            },
            _ => upload_failed(out),
        },
    }
}

/// The receipt that a step of an upload ends with, if it ends with one.
pub open spec fn stored(state: UploadState, event: Event) -> Option<UploadFileResponse> {
    match (state, event) {
        (UploadState::Sending, Event::Replied { status, body: Payload::Receipt(receipt) }) =>
            if is_success(status) {
            Some(receipt)
        } else {
            None
        },
        _ => None,
    }
}

/// Takes an upload one step further.
pub fn upload_file(state: UploadState, event: Event) -> (out: Progress<
    UploadState,
    Result<UploadFileResponse, Error>,
>)
    ensures
        upload_file_yields(state, event, out),
        out matches Progress::Finished(Ok(receipt)) ==> stored(state, event) == Some(receipt),
        stored(state, event) is Some ==> out matches Progress::Finished(Ok(_)),
{
    match state {
        UploadState::Start(job) => {
            let (next, action) = begin(job);
            Progress::Continue(next, action)
        },
        UploadState::RequestingUrl(job) => match event {
            Event::Replied { status, body: Payload::UploadUrl(target) } => {
                if succeeded(status) {
                    let request = upload_request(&target, job);
                    Progress::Continue(
                        UploadState::Sending,
                        Action::Send { request, expect: Expect::Receipt },
                    )
                } else {
                    Progress::Finished(Err(Error::upstream("Upload failed")))
                }
            },
            _ => Progress::Finished(Err(Error::upstream("Upload failed"))),
        },
        UploadState::Sending => match event {
            Event::Replied { status, body: Payload::Receipt(receipt) } => {
                if succeeded(status) {
                    Progress::Finished(Ok(receipt))
                } else {
                    Progress::Finished(Err(Error::upstream("Upload failed")))
                }
            },
            _ => Progress::Finished(Err(Error::upstream("Upload failed"))),
        },
    }
}

} // verus!
