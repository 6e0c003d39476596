//! Serving an image at a requested width.
//!
//! A request names an image by its key and may ask for a width. The original
//! is served where no width is asked for, or where it is no wider than asked:
//! an image is never enlarged. A variant that is stored already is served as
//! it is. Any other width is made on the spot from the original, served at
//! once, and handed to the background work that stores it.

use vstd::prelude::*;
use vstd::string::*;

use crate::auth::{authorize, authorize_yields, AuthState};
use crate::codec::{
    can_resize, content_type, decoded_size, derivative, fits, format_of_extension, media_type, Format,
    Picture,
};
use crate::error::Error;
use crate::host::{is_success, succeeded, Action, Event, Expect, Namespace, Payload, Progress, Stored};
use crate::origin::{download_request, spec_download_request, AuthResponse};
use crate::persist::PersistState;
use crate::record::{resolve, spec_resolve, Resolution, StoredImage};
use crate::text::{decimal_string, decimal_text, parse_u32, parsed_u32};
use crate::transfer::{UploadJob, UploadJobView};

verus! {

/// What a client asks for: an image, and perhaps a width.
#[derive(Clone, Debug, PartialEq, Eq)]
pub struct DerivativeRequest {
    pub key: String,
    pub width: Option<u32>,
}

/// The body of a response and its media type.
#[derive(Clone, Debug, PartialEq, Eq)]
pub struct Reply {
    pub body: Vec<u8>,
    pub content_type: String,
}

/// A response, and the work that the host is to let run after it has sent
/// the response: storing the variant that was made for it.
#[derive(Clone, Debug, PartialEq, Eq)]
pub struct Served {
    pub reply: Reply,
    pub persist: Option<PersistState>,
}

/// What is needed to make a variant once the original has arrived.
#[derive(Clone, Debug, PartialEq, Eq)]
pub struct Synthesis {
    pub key: String,
    pub credential: AuthResponse,
    pub name: String,
    pub ext: String,
    pub format: Format,
    pub width: u32,
    pub content_type: String,
}

/// How far the serving of a request has come.
#[derive(Clone, Debug, PartialEq, Eq)]
pub enum GetState {
    /// A credential is being sought.
    Authorizing { request: DerivativeRequest, auth: AuthState },
    /// The image's record is being read.
    LoadingRecord { request: DerivativeRequest, credential: AuthResponse },
    /// A stored object is being fetched, to be served as it is.
    FetchingStored { content_type: String },
    /// The original is being fetched, to make a variant from it.
    FetchingSource(Synthesis),
}

/// How far the serving of a request has come, or what it ended with.
pub type GetProgress = Progress<GetState, Result<Served, Error>>;

impl GetState {
    /// The state in which the serving of a request begins.
    pub fn new(key: String, width: Option<u32>) -> (state: GetState)
        ensures
            state == (GetState::Authorizing {
                request: DerivativeRequest { key, width },
                auth: AuthState::Start,
            }),
    {
        GetState::Authorizing { request: DerivativeRequest { key, width }, auth: AuthState::Start }
    }
}

/// The state in which the serving of the given request begins.
pub open spec fn begins(state: GetState, image: Seq<char>, width: Option<u32>) -> bool {
    state matches GetState::Authorizing { request, auth } && request.key@ == image
        && request.width == width && auth == AuthState::Start
}

/// What a request for an image begins with, given the text of its `width`
/// parameter, if it has one. Without the parameter the original is asked
/// for. A parameter that is no number ends the request with an
/// `InternalError`.
pub open spec fn spec_get_image(image: Seq<char>, width: Option<Seq<char>>, r: Result<
    GetState,
    Error,
>) -> bool {
    match width {
        None => r matches Ok(state) && begins(state, image, None),
        Some(text) => match parsed_u32(text) {
            Some(w) => r matches Ok(state) && begins(state, image, Some(w)),
            None => r matches Err(e) && e is InternalError && e.text()
                == "Non numeric parameter is provided"@,
        },
    }
}

/// Reads the width that a request asks for and sets out to serve it.
pub fn get_image(image: &str, width: Option<&str>) -> (r: Result<GetState, Error>)
    ensures
        spec_get_image(
            image@,
            match width {
                Some(text) => Some(text@),
                None => None,
            },
            r,
        ),
{
    let width = match width {
        None => None,
        Some(text) => match parse_u32(text) {
            Some(w) => Some(w),
            None => {
                return Err(Error::internal("Non numeric parameter is provided"));
            },
        },
    };
    Ok(GetState::new(String::from_str(image), width))
}

/// The request ends with an error of the given kind and text.
pub open spec fn fails_with(out: GetProgress, kind: spec_fn(Error) -> bool, text: Seq<char>) -> bool {
    out matches Progress::Finished(Err(e)) && kind(e) && e.text() == text
}

/// The request ends because the image cannot be decoded, resized or
/// encoded.
pub open spec fn decode_failed(out: GetProgress) -> bool {
    out matches Progress::Finished(Err(e)) && e is DecodeError
}

/// The response carries the media type of the image, and the work that
/// comes with it will store the body of the response as the variant of the
/// given width, under the image's name and extension.
pub open spec fn schedules(served: Served, plan: Synthesis) -> bool {
    &&& served.reply.content_type@ == plan.content_type@
    &&& served.persist matches Some(PersistState::Uploading { key, width, upload })
    &&& key@ == plan.key@
    &&& width == plan.width
    &&& upload.starts(
        UploadJobView {
            file: served.reply.body@,
            auth: plan.credential,
            mime: plan.content_type@,
            name: plan.name@,
            suffix: decimal_text(plan.width as nat),
            ext: plan.ext@,
        },
    )
}

/// What becomes of a request once the encoder has had its say: its bytes
/// are served and scheduled for storing, its refusal ends the request.
pub open spec fn synthesized_yields(
    encoded: Result<Vec<u8>, Error>,
    plan: Synthesis,
    out: GetProgress,
) -> bool {
    match encoded {
        Ok(body) => out matches Progress::Finished(Ok(served)) && served.reply.body@ == body@
            && schedules(served, plan),
        Err(e) => out == GetProgress::Finished(Err(e)),
    }
}

/// Turns the outcome of encoding a new variant into the end of the request.
pub fn synthesized(encoded: Result<Vec<u8>, Error>, plan: Synthesis) -> (out: GetProgress)
    ensures
        synthesized_yields(encoded, plan, out),
{
    match encoded {
        Ok(body) => {
            let file = body.clone();
            assert(file@ =~= body@);
            let job = UploadJob {
                file,
                auth: plan.credential,
                mime: plan.content_type.clone(),
                name: plan.name,
                suffix: decimal_string(plan.width),
                ext: plan.ext,
            };
            let persist = PersistState::new(plan.key, plan.width, job);
            Progress::Finished(
                Ok(
                    Served {
                        reply: Reply { body, content_type: plan.content_type },
                        persist: Some(persist),
                    },
                ),
            )
        },
        Err(e) => Progress::Finished(Err(e)),
    }
}

/// What becomes of a request once the variant has been made, given what the
/// encoder makes of it: its bytes are served and scheduled for storing, its
/// refusal ends the request with a `DecodeError`.
pub open spec fn encoded_yields(small: Picture, plan: Synthesis, out: GetProgress) -> bool {
    match small.spec_encode(plan.format) {
        Some(body) => out matches Progress::Finished(Ok(served)) && served.reply.body@ == body
            && schedules(served, plan),
        None => decode_failed(out),
    }
}

/// What becomes of a request for a new variant once the original has
/// arrived.
///
/// Where the original cannot be decoded, or cannot be brought to the width
/// without enlarging or emptying it, the request ends with a `DecodeError`.
/// Otherwise the picture is brought to the width, keeping its proportions,
/// and the encoder decides over that picture: the request ends with a
/// response that carries the encoded variant and schedules its storing, or,
/// where the encoder refuses the variant, with a `DecodeError`.
pub open spec fn synthesis_yields(original: Seq<u8>, plan: Synthesis, out: GetProgress) -> bool {
    match decoded_size(original, plan.format) {
        None => decode_failed(out),
        Some((width, height)) => if can_resize(width, height, plan.width) {
            exists|small: Picture|
                fits(small, width, height, plan.width) && #[trigger] encoded_yields(
                    small,
                    plan,
                    out,
                )
        } else {
            decode_failed(out)
        },
    }
}

/// Makes the variant from the original and ends the request with it.
pub fn synthesize(original: &[u8], plan: Synthesis) -> (out: GetProgress)
    ensures
        synthesis_yields(original@, plan, out),
{
    match derivative(original, plan.format, plan.width) {
        Ok(small) => {
            let out = synthesized(small.encode(plan.format), plan);
            assert(encoded_yields(small, plan, out));
            out
        },
        Err(e) => Progress::Finished(Err(e)),
    }
}

/// What becomes of a request once the image's record has been read.
///
/// The choice made for the width decides which stored object is fetched:
/// the original, or the variant of that width. Either is served under the
/// media type that goes with the record's format. A width that has yet to be
/// made fetches the original, too, and remembers what is needed to make the
/// variant from it; this needs a format that can be decoded, and a record
/// whose format is none of those handled ends the request with an
/// `InternalError`.
pub open spec fn resolution_yields(
    request: DerivativeRequest,
    credential: AuthResponse,
    record: StoredImage,
    out: GetProgress,
) -> bool {
    match spec_resolve(record@, request.width) {
        Resolution::Original => out matches Progress::Continue(
            GetState::FetchingStored { content_type },
            action,
        ) && content_type@ == media_type(record.format@) && action.sends(
            spec_download_request(credential, record.name@, "orig"@, record.format@),
            Expect::Bytes,
        ),
        Resolution::Variant(width) => out matches Progress::Continue(
            GetState::FetchingStored { content_type },
            action,
        ) && content_type@ == media_type(record.format@) && action.sends(
            spec_download_request(
                credential,
                record.name@,
                decimal_text(width as nat),
                record.format@,
            ),
            Expect::Bytes,
        ),
        Resolution::Synthesize(width) => match format_of_extension(record.format@) {
            None => fails_with(out, |e: Error| e is InternalError, "Invalid format"@),
            Some(format) => out matches Progress::Continue(GetState::FetchingSource(plan), action)
                && plan.key@ == request.key@ && plan.credential == credential && plan.name@
                == record.name@ && plan.ext@ == record.format@ && plan.format == format
                && plan.width == width && plan.content_type@ == media_type(record.format@)
                && action.sends(
                spec_download_request(credential, record.name@, "orig"@, record.format@),
                Expect::Bytes,
            ),
        },
    }
}

/// Decides what to fetch for a request, given the image's record.
pub fn resolved(request: DerivativeRequest, credential: AuthResponse, record: StoredImage) -> (out:
    GetProgress)
    ensures
        resolution_yields(request, credential, record, out),
{
    let content_type = content_type(record.format.as_str());
    match resolve(&record, request.width) {
        Resolution::Original => {
            let fetch = download_request(
                record.name.as_str(),
                "orig",
                record.format.as_str(),
                &credential,
            );
            Progress::Continue(
                GetState::FetchingStored { content_type },
                Action::Send { request: fetch, expect: Expect::Bytes },
            )
        },
        Resolution::Variant(width) => {
            let suffix = decimal_string(width);
            let fetch = download_request(
                record.name.as_str(),
                suffix.as_str(),
                record.format.as_str(),
                &credential,
            );
            Progress::Continue(
                GetState::FetchingStored { content_type },
                Action::Send { request: fetch, expect: Expect::Bytes },
            )
        },
        Resolution::Synthesize(width) => {
            let format = match Format::of_extension(record.format.as_str()) {
                Some(format) => format,
                None => {
                    return Progress::Finished(Err(Error::internal("Invalid format")));
                },
            };
            let fetch = download_request(
                record.name.as_str(),
                "orig",
                record.format.as_str(),
                &credential,
            );
            let plan = Synthesis {
                key: request.key,
                credential,
                name: record.name,
                ext: record.format,
                format,
                width,
                content_type,
            };
            Progress::Continue(
                GetState::FetchingSource(plan),
                Action::Send { request: fetch, expect: Expect::Bytes },
            )
        },
    }
}

/// One step of serving a request, at the second `now`.
///
/// While a credential is sought, the steps of that search are passed on, and
/// its failure ends the request before the record is read. With a credential
/// the record is read under the request's key: a missing record ends the
/// request with a `NotFoundError`, a store that cannot be read with an
/// `UpstreamError`. The record decides what is fetched. A stored object is
/// served byte for byte; where the origin does not have it, the request ends
/// with a `NotFoundError`, and with an `UpstreamError` where the origin
/// fails otherwise. An original that was fetched to make a variant from it
/// must arrive, or the request ends with an `UpstreamError`.
pub open spec fn get_yields(state: GetState, event: Event, now: u64, out: GetProgress) -> bool {
    match state {
        GetState::Authorizing { request, auth } => match out {
            Progress::Continue(GetState::Authorizing { request: r, auth: next }, action) => r
                == request && authorize_yields(auth, event, now, Progress::Continue(next, action)),
            Progress::Continue(GetState::LoadingRecord { request: r, credential }, action) => r
                == request && action.loads(Namespace::Images, request.key@) && authorize_yields(
                auth,
                event,
                now,
                Progress::Finished(Ok(credential)),
            ),
            Progress::Finished(Err(e)) => authorize_yields(
                auth,
                event,
                now,
                Progress::Finished(Err(e)),
            ),
            _ => false,
        },
        GetState::LoadingRecord { request, credential } => match event {
            Event::Loaded(Some(Stored::Record(record))) => resolution_yields(
                request,
                credential,
                record,
                out,
            ),
            Event::Loaded(None) => fails_with(
                out,
                |e: Error| e is NotFoundError,
                "File not found."@,
            ),
            _ => fails_with(out, |e: Error| e is UpstreamError, "Cannot read the image record"@),
        },
        GetState::FetchingStored { content_type } => match event {
            Event::Replied { status, body } => if is_success(status) {
                match body {
                    Payload::Bytes(bytes) => out == GetProgress::Finished(
                        Ok(Served { reply: Reply { body: bytes, content_type }, persist: None }),
                    ),
                    _ => fails_with(out, |e: Error| e is UpstreamError, "Download failed"@),
                }
            } else if status == 404 {
                fails_with(out, |e: Error| e is NotFoundError, "Image not found."@)
            } else {
                fails_with(out, |e: Error| e is UpstreamError, "Download failed"@)
            },
            _ => fails_with(out, |e: Error| e is UpstreamError, "Download failed"@),
        },
        GetState::FetchingSource(plan) => match event {
            Event::Replied { status, body: Payload::Bytes(bytes) } => if is_success(status) {
                synthesis_yields(bytes@, plan, out)
            } else {
                fails_with(out, |e: Error| e is UpstreamError, "Original image not found."@)
            },
            _ => fails_with(out, |e: Error| e is UpstreamError, "Original image not found."@),
        },
    }
}

/// Takes the serving of a request one step further.
pub fn get(state: GetState, event: Event, now: u64) -> (out: GetProgress)
    ensures
        get_yields(state, event, now, out),
{
    match state {
        GetState::Authorizing { request, auth } => match authorize(auth, event, now) {
            Progress::Continue(next, action) => Progress::Continue(
                GetState::Authorizing { request, auth: next },
                action,
            ),
            Progress::Finished(Ok(credential)) => {
                let key = request.key.clone();
                Progress::Continue(
                    GetState::LoadingRecord { request, credential },
                    Action::Load { namespace: Namespace::Images, key },
                )
            },
            Progress::Finished(Err(e)) => Progress::Finished(Err(e)),
        },
        GetState::LoadingRecord { request, credential } => match event {
            Event::Loaded(Some(Stored::Record(record))) => resolved(request, credential, record),
            Event::Loaded(None) => Progress::Finished(Err(Error::not_found("File not found."))),
            _ => Progress::Finished(Err(Error::upstream("Cannot read the image record"))),
        },
        GetState::FetchingStored { content_type } => match event {
            Event::Replied { status, body } => {
                if succeeded(status) {
                    match body {
                        Payload::Bytes(bytes) => Progress::Finished(
                            Ok(Served { reply: Reply { body: bytes, content_type }, persist: None }),
                        ),
                        _ => Progress::Finished(Err(Error::upstream("Download failed"))),
                    }
                } else if status == 404 {
                    Progress::Finished(Err(Error::not_found("Image not found.")))
                } else {
                    Progress::Finished(Err(Error::upstream("Download failed")))
                }
            },
            _ => Progress::Finished(Err(Error::upstream("Download failed"))),
        },
        GetState::FetchingSource(plan) => match event {
            Event::Replied { status, body: Payload::Bytes(bytes) } => {
                if succeeded(status) {
                    synthesize(bytes.as_slice(), plan)
                } else {
                    Progress::Finished(Err(Error::upstream("Original image not found.")))
                }
            },
            _ => Progress::Finished(Err(Error::upstream("Original image not found."))),
        },
    }
}

} // verus!
