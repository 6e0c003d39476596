//! What holds of the service as a whole, proved from the contracts of its
//! steps.

use vstd::prelude::*;
use vstd::string::*;

use crate::auth::{asks_secrets, authorize_yields, AuthState};
use crate::codec::{
    can_resize, decoded_size, extensions, fits, format_of_extension, lemma_extension_leads_back,
    lemma_media_type_of_extension, media_type, sniffed_format, Format, Picture,
};
use crate::error::{Error, Stage};
use crate::get::{encoded_yields, get_yields, DerivativeRequest, GetProgress, GetState};
use crate::host::{
    is_success, Action, CachedCredential, Event, Expect, Payload, Progress, Stored, CREDENTIAL_TTL,
};
use crate::origin::{spec_download_request, AuthResponse, UploadFileResponse};
use crate::persist::{persist_yields, PersistOutcome, PersistState};
use crate::record::{
    lemma_with_variant_keeps_form, spec_ladder, spec_resolve, Resolution, StoredImage,
};
use crate::text::{decimal_text, lemma_decimal_reads_back};
use crate::transfer::{stored, UploadJobView, UploadState};
use crate::upload::{
    entry_is, lemma_pick_everything, lemma_present_everything, made, pick, prepared_from,
    prepared_yields, upload_yields, variant_made, widths_of, Ingest, IngestProgress, IngestState,
    Pending, Variant,
};
use crate::util::{lemma_stored_extension_belongs_to_format, spec_logical_key};

verus! {

/// A request for a width that the original does not exceed is answered with
/// the stored original, byte for byte: the step that follows the reading of
/// the record fetches the object stored under the suffix `orig`, and the
/// step after that hands the fetched bytes on unchanged, with no work left
/// to do.
pub proof fn lemma_wide_request_gets_original(
    request: DerivativeRequest,
    credential: AuthResponse,
    record: StoredImage,
    width: u32,
    now: u64,
    fetch: GetProgress,
    status: u16,
    object: Vec<u8>,
    done: GetProgress,
)
    requires
        request.width == Some(width),
        record.width <= width,
        get_yields(
            GetState::LoadingRecord { request, credential },
            Event::Loaded(Some(Stored::Record(record))),
            now,
            fetch,
        ),
        is_success(status),
        fetch matches Progress::Continue(next, _) && get_yields(
            next,
            Event::Replied { status, body: Payload::Bytes(object) },
            now,
            done,
        ),
    ensures
        fetch matches Progress::Continue(_, action) && action.sends(
            spec_download_request(credential, record.name@, "orig"@, record.format@),
            Expect::Bytes,
        ),
        done matches Progress::Finished(Ok(served)) && served.reply.body == object
            && served.persist is None,
{
}

/// A request for a width of which a variant is stored is answered with that
/// variant, byte for byte, and nothing is resized: the step that follows the
/// reading of the record fetches the object stored under the width as its
/// suffix, and the step after that hands the fetched bytes on unchanged,
/// with no work left to do.
pub proof fn lemma_stored_variant_is_served_as_is(
    request: DerivativeRequest,
    credential: AuthResponse,
    record: StoredImage,
    width: u32,
    now: u64,
    fetch: GetProgress,
    status: u16,
    object: Vec<u8>,
    done: GetProgress,
)
    requires
        request.width == Some(width),
        width < record.width,
        record@.variants.contains(width),
        get_yields(
            GetState::LoadingRecord { request, credential },
            Event::Loaded(Some(Stored::Record(record))),
            now,
            fetch,
        ),
        is_success(status),
        fetch matches Progress::Continue(next, _) && get_yields(
            next,
            Event::Replied { status, body: Payload::Bytes(object) },
            now,
            done,
        ),
    ensures
        fetch matches Progress::Continue(_, action) && action.sends(
            spec_download_request(
                credential,
                record.name@,
                decimal_text(width as nat),
                record.format@,
            ),
            Expect::Bytes,
        ),
        done matches Progress::Finished(Ok(served)) && served.reply.body == object
            && served.persist is None,
{
}

/// A request for a width below the original's of which no variant is stored
/// fetches the original. Where the request then succeeds, the original
/// could be decoded and brought to the width without enlarging or emptying
/// it. The body of the response is what the encoder wrote for a picture of
/// the asked width and of the height that keeps the proportions, and the
/// very step that ends the request schedules the storing of that body as
/// the variant of that width: the response does not wait for it.
pub proof fn lemma_new_width_is_made_and_scheduled(
    request: DerivativeRequest,
    credential: AuthResponse,
    record: StoredImage,
    format: Format,
    width: u32,
    now: u64,
    fetch: GetProgress,
    status: u16,
    original: Vec<u8>,
    done: GetProgress,
)
    requires
        request.width == Some(width),
        width < record.width,
        !record@.variants.contains(width),
        format_of_extension(record.format@) == Some(format),
        get_yields(
            GetState::LoadingRecord { request, credential },
            Event::Loaded(Some(Stored::Record(record))),
            now,
            fetch,
        ),
        is_success(status),
        fetch matches Progress::Continue(next, _) && get_yields(
            next,
            Event::Replied { status, body: Payload::Bytes(original) },
            now,
            done,
        ),
        done matches Progress::Finished(Ok(_)),
    ensures
        fetch matches Progress::Continue(_, action) && action.sends(
            spec_download_request(credential, record.name@, "orig"@, record.format@),
            Expect::Bytes,
        ),
        ({
            &&& decoded_size(original@, format) matches Some((w, h))
            &&& can_resize(w, h, width)
            &&& done matches Progress::Finished(Ok(served))
            &&& exists|small: Picture|
                fits(small, w, h, width) && #[trigger] small.spec_encode(format) == Some(
                    served.reply.body@,
                )
        }),
        ({
            &&& done matches Progress::Finished(Ok(served))
            &&& served.reply.content_type@ == media_type(record.format@)
            &&& served.persist matches Some(
                PersistState::Uploading { key, width: stored_width, upload },
            )
            &&& key@ == request.key@
            &&& stored_width == width
            &&& upload.starts(
                UploadJobView {
                    file: served.reply.body@,
                    auth: credential,
                    mime: served.reply.content_type@,
                    name: record.name@,
                    suffix: decimal_text(width as nat),
                    ext: record.format@,
                },
            )
        }),
{
    match (fetch, decoded_size(original@, format)) {
        (Progress::Continue(GetState::FetchingSource(plan), _), Some((w, h))) => {
            let small = choose|small: Picture|
                fits(small, w, h, width) && #[trigger] encoded_yields(small, plan, done);
            assert(small.spec_encode(format) is Some);
        },
        _ => {},
    }
}

/// A request for a width below the original's of which no variant is stored
/// succeeds wherever the original arrives, can be decoded and brought to the
/// width, and the encoder accepts the pictures of the new size.
pub proof fn lemma_new_width_succeeds(
    request: DerivativeRequest,
    credential: AuthResponse,
    record: StoredImage,
    format: Format,
    size: (u32, u32),
    width: u32,
    now: u64,
    fetch: GetProgress,
    status: u16,
    original: Vec<u8>,
    done: GetProgress,
)
    requires
        request.width == Some(width),
        width < record.width,
        !record@.variants.contains(width),
        format_of_extension(record.format@) == Some(format),
        get_yields(
            GetState::LoadingRecord { request, credential },
            Event::Loaded(Some(Stored::Record(record))),
            now,
            fetch,
        ),
        is_success(status),
        fetch matches Progress::Continue(next, _) && get_yields(
            next,
            Event::Replied { status, body: Payload::Bytes(original) },
            now,
            done,
        ),
        decoded_size(original@, format) == Some(size),
        can_resize(size.0, size.1, width),
        forall|small: Picture|
            fits(small, size.0, size.1, width) ==> #[trigger] small.spec_encode(format) is Some,
    ensures
        done matches Progress::Finished(Ok(_)),
{
    match fetch {
        Progress::Continue(GetState::FetchingSource(plan), _) => {
            let small = choose|small: Picture|
                fits(small, size.0, size.1, width) && #[trigger] encoded_yields(
                    small,
                    plan,
                    done,
                );
            assert(small.spec_encode(format) is Some);
        },
        _ => {},
    }
}

/// An image of one of the formats handled is served under the media type of
/// its format, whichever of the format's extensions its record holds.
pub proof fn lemma_served_media_type(format: Format, k: int)
    requires
        0 <= k < extensions(format).len(),
    ensures
        media_type(extensions(format)[k]) == format.spec_media_type(),
        format_of_extension(extensions(format)[k]) == Some(format),
{
    lemma_media_type_of_extension(format, k);
    lemma_extension_leads_back(format, k);
}

/// Taking in an image begins with the upload of its original, which is what
/// the encoder wrote for a picture of the decoded size, and makes one upload
/// for every standard width below its width, in their order. This holds
/// wherever the file decodes, the picture can be brought to each of those
/// widths, and the encoder accepts the pictures of the decoded size and of
/// the new sizes. The record will hold the decoded width, and an extension
/// of the format that the content announced.
pub proof fn lemma_ingest_makes_the_ladder(
    input: Ingest,
    credential: AuthResponse,
    format: Format,
    size: (u32, u32),
    out: IngestProgress,
)
    requires
        sniffed_format(input.file@) == Some(format),
        decoded_size(input.file@, format) == Some(size),
        forall|picture: Picture|
            picture.width() == size.0 && picture.height() == size.1
                ==> #[trigger] picture.spec_encode(format) is Some,
        forall|w: u32|
            spec_ladder(size.0).contains(w) ==> #[trigger] can_resize(size.0, size.1, w),
        forall|small: Picture, w: u32|
            spec_ladder(size.0).contains(w) && #[trigger] fits(small, size.0, size.1, w)
                ==> small.spec_encode(format) is Some,
        prepared_yields(input, credential, out),
    ensures
        ({
            &&& out matches Progress::Continue(
                IngestState::UploadingOriginal { pending, upload, variants },
                _,
            )
            &&& pending.width == size.0
            &&& pending.key@ == spec_logical_key(input.scope@, input.filename@)
            &&& format_of_extension(pending.ext@) == Some(format)
            &&& upload matches UploadState::RequestingUrl(job)
            &&& job@.name == pending.name@
            &&& job@.suffix == "orig"@
            &&& job@.ext == pending.ext@
            &&& exists|picture: Picture|
                picture.width() == size.0 && picture.height() == size.1
                    && #[trigger] picture.spec_encode(format) == Some(job.file@)
            &&& widths_of(variants@) == spec_ladder(size.0)
            &&& forall|i: int| 0 <= i < variants@.len() ==> (#[trigger] variants@[i]).job is Some
            &&& pick(widths_of(variants@), made(variants@)) == spec_ladder(size.0)
        }),
{
    let picture = choose|picture: Picture|
        picture.width() == size.0 && picture.height() == size.1 && #[trigger] prepared_from(
            picture,
            input,
            format,
            credential,
            out,
        );
    assert(picture.spec_encode(format) is Some);
    lemma_stored_extension_belongs_to_format(input.scope@, input.filename@, format);
    match out {
        Progress::Continue(IngestState::UploadingOriginal { pending, upload, variants }, _) => {
            let ladder = spec_ladder(size.0);
            assert forall|i: int| 0 <= i < variants@.len() implies (
            #[trigger] variants@[i]).job is Some by {
                let entry = variants@[i];
                assert(widths_of(variants@)[i] == entry.width);
                assert(ladder.contains(ladder[i]));
                assert(variant_made(entry, picture, format, credential, pending));
                let small = choose|small: Picture|
                    fits(small, size.0, size.1, entry.width) && #[trigger] entry_is(
                        entry,
                        small.spec_encode(format),
                        credential,
                        pending,
                    );
                assert(small.spec_encode(format) is Some);
            }
            assert forall|i: int| 0 <= i < variants@.len() implies made(variants@)[i] by {
                assert(variants@[i].job is Some);
            }
            lemma_pick_everything(widths_of(variants@), made(variants@));
        },
        _ => {},
    }
}

/// Once the original is stored, the uploads of all variants that were made
/// go to the host together, in the order of their widths, and the id of the
/// stored original is kept for the record.
pub proof fn lemma_stored_original_hands_out_variants(
    pending: Pending,
    upload: UploadState,
    variants: Vec<Variant>,
    event: Event,
    receipt: UploadFileResponse,
    now: u64,
    out: IngestProgress,
)
    requires
        stored(upload, event) == Some(receipt),
        variants@.len() > 0,
        forall|i: int| 0 <= i < variants@.len() ==> (#[trigger] variants@[i]).job is Some,
        upload_yields(
            IngestState::UploadingOriginal { pending, upload, variants },
            event,
            now,
            out,
        ),
    ensures
        ({
            &&& out matches Progress::Continue(
                IngestState::UploadingVariants { pending: p, id, widths },
                Action::UploadAll { uploads },
            )
            &&& p == pending
            &&& id == receipt.file_id
            &&& widths@ == widths_of(variants@)
            &&& uploads@.len() == variants@.len()
            &&& forall|i: int|
                0 <= i < uploads@.len() ==> #[trigger] uploads@[i] == UploadState::Start(
                    variants@[i].job->0,
                )
        }),
{
    assert forall|i: int| 0 <= i < variants@.len() implies made(variants@)[i] by {
        assert(variants@[i].job is Some);
    }
    lemma_pick_everything(widths_of(variants@), made(variants@));
    lemma_present_everything(variants@);
}

/// Where the host reports that every variant was stored, the record lists
/// every one of them, in their order.
pub proof fn lemma_all_stored_are_listed(
    pending: Pending,
    id: String,
    widths: Vec<u32>,
    flags: Vec<bool>,
    now: u64,
    out: IngestProgress,
)
    requires
        flags@.len() == widths@.len(),
        forall|i: int| 0 <= i < flags@.len() ==> flags@[i],
        upload_yields(
            IngestState::UploadingVariants { pending, id, widths },
            Event::Uploaded(flags),
            now,
            out,
        ),
    ensures
        out matches Progress::Continue(_, Action::Save { value: Stored::Record(record), .. })
            && record.width == pending.width && record@.variants == widths@,
{
    lemma_pick_everything(widths@, flags@);
}

/// Once the storing of a new variant has written the record, a request for
/// that width is answered from the stored variant.
pub proof fn lemma_persisted_width_is_hit(
    key: String,
    width: u32,
    record: StoredImage,
    out: Progress<PersistState, PersistOutcome>,
)
    requires
        persist_yields(
            PersistState::Reloading { key, width },
            Event::Loaded(Some(Stored::Record(record))),
            out,
        ),
        out is Continue,
    ensures
        out matches Progress::Continue(_, action) && action.saves_record(
            key@,
            record@.with_variant(width),
        ),
        spec_resolve(record@.with_variant(width), Some(width)) == Resolution::Variant(width),
{
    let after = record@.with_variant(width);
    assert(after.variants[after.variants.len() - 1] == width);
}

/// Storing the variant of one width twice lists the width once: the second
/// time the record is left as it is and is not written.
pub proof fn lemma_persisting_twice_lists_once(
    key: String,
    width: u32,
    record: StoredImage,
    again: StoredImage,
    out: Progress<PersistState, PersistOutcome>,
)
    requires
        again@ == record@.with_variant(width),
        persist_yields(
            PersistState::Reloading { key, width },
            Event::Loaded(Some(Stored::Record(again))),
            out,
        ),
    ensures
        out == Progress::<PersistState, PersistOutcome>::Finished(PersistOutcome::Unchanged),
        record@.with_variant(width).with_variant(width) == record@.with_variant(width),
        record.well_formed() ==> again.well_formed(),
{
    let after = record@.with_variant(width);
    if width < record.width && !record@.variants.contains(width) {
        assert(after.variants[after.variants.len() - 1] == width);
    }
    if record.well_formed() {
        lemma_with_variant_keeps_form(record@, width);
    }
}

/// The storing of a variant writes a well-formed record wherever it read
/// one: every width it lists is below the original's, and none is listed
/// twice, in whatever order the work for several widths reads and writes.
pub proof fn lemma_persisted_record_keeps_form(
    key: String,
    width: u32,
    record: StoredImage,
    out: Progress<PersistState, PersistOutcome>,
)
    requires
        record.well_formed(),
        persist_yields(
            PersistState::Reloading { key, width },
            Event::Loaded(Some(Stored::Record(record))),
            out,
        ),
    ensures
        out matches Progress::Continue(_, Action::Save { value: Stored::Record(written), .. })
            ==> written.well_formed(),
{
    lemma_with_variant_keeps_form(record@, width);
}

/// A request that asks for no width is answered with the stored original,
/// byte for byte.
pub proof fn lemma_plain_request_gets_original(
    request: DerivativeRequest,
    credential: AuthResponse,
    record: StoredImage,
    now: u64,
    fetch: GetProgress,
    status: u16,
    object: Vec<u8>,
    done: GetProgress,
)
    requires
        request.width is None,
        get_yields(
            GetState::LoadingRecord { request, credential },
            Event::Loaded(Some(Stored::Record(record))),
            now,
            fetch,
        ),
        is_success(status),
        fetch matches Progress::Continue(next, _) && get_yields(
            next,
            Event::Replied { status, body: Payload::Bytes(object) },
            now,
            done,
        ),
    ensures
        fetch matches Progress::Continue(_, action) && action.sends(
            spec_download_request(credential, record.name@, "orig"@, record.format@),
            Expect::Bytes,
        ),
        done matches Progress::Finished(Ok(served)) && served.reply.body == object
            && served.persist is None,
{
}

/// An image is stored under an extension of the format that its content
/// announced, so the format that a later request tells from its record is
/// the one the image was decoded with.
pub proof fn lemma_ingested_format_is_kept(
    input: Ingest,
    credential: AuthResponse,
    format: Format,
    out: IngestProgress,
)
    requires
        sniffed_format(input.file@) == Some(format),
        prepared_yields(input, credential, out),
        out is Continue,
    ensures
        out matches Progress::Continue(IngestState::UploadingOriginal { pending, .. }, _)
            && format_of_extension(pending.ext@) == Some(format),
{
    lemma_stored_extension_belongs_to_format(input.scope@, input.filename@, format);
}

/// The suffix under which a variant is stored reads back as its width, so
/// no two widths share a suffix.
pub proof fn lemma_suffix_tells_the_width(first: u32, second: u32)
    requires
        decimal_text(first as nat) == decimal_text(second as nat),
    ensures
        first == second,
{
    lemma_decimal_reads_back(first);
    lemma_decimal_reads_back(second);
}

/// A credential that the origin issued at the second `issued` is cached
/// whole, and a search that finds it in the cache at any second of the day
/// that follows ends with it at once: the origin is not asked and the cache
/// is not written.
pub proof fn lemma_fresh_credential_is_reused(
    auth: AuthResponse,
    status: u16,
    issued: u64,
    first: Progress<AuthState, Result<AuthResponse, Error>>,
    cached: CachedCredential,
    later: u64,
    second: Progress<AuthState, Result<AuthResponse, Error>>,
)
    requires
        is_success(status),
        authorize_yields(
            AuthState::Authenticating,
            Event::Replied { status, body: Payload::Credential(auth) },
            issued,
            first,
        ),
        first matches Progress::Continue(_, Action::Save { value: Stored::Credential(c), .. })
            && cached == c,
        issued <= later < issued + CREDENTIAL_TTL,
        authorize_yields(
            AuthState::ReadingCache,
            Event::Loaded(Some(Stored::Credential(cached))),
            later,
            second,
        ),
    ensures
        first matches Progress::Continue(_, action) && action.saves_credential(auth, issued),
        second == Progress::<AuthState, Result<AuthResponse, Error>>::Finished(Ok(auth)),
{
}

/// A search that finds a credential in the cache a day or more after it
/// was issued does not use it, but goes on to ask the origin.
pub proof fn lemma_stale_credential_is_refreshed(
    cached: CachedCredential,
    later: u64,
    found: Progress<AuthState, Result<AuthResponse, Error>>,
)
    requires
        later >= cached.issued_at + CREDENTIAL_TTL,
        authorize_yields(
            AuthState::ReadingCache,
            Event::Loaded(Some(Stored::Credential(cached))),
            later,
            found,
        ),
    ensures
        asks_secrets(found),
{
}

/// A search asks the origin at most once. Every step that does not end the
/// search brings it nearer to its end, so no state is seen twice; and only
/// the step that follows the reading of the secrets sends a request.
pub proof fn lemma_search_asks_origin_once(
    state: AuthState,
    event: Event,
    now: u64,
    out: Progress<AuthState, Result<AuthResponse, Error>>,
)
    requires
        authorize_yields(state, event, now, out),
    ensures
        out matches Progress::Continue(next, action) ==> next.steps_left() < state.steps_left()
            && (action is Send ==> state is ReadingSecrets),
{
}

/// Where the origin refuses to issue a credential, the request ends with an
/// `AuthError`, shown as 403, in the very step that reads the refusal: no
/// record is read.
pub proof fn lemma_refused_credential_ends_request(
    request: DerivativeRequest,
    status: u16,
    body: Payload,
    now: u64,
    stage: Stage,
    out: GetProgress,
)
    requires
        !is_success(status),
        get_yields(
            GetState::Authorizing { request, auth: AuthState::Authenticating },
            Event::Replied { status, body },
            now,
            out,
        ),
    ensures
        out matches Progress::Finished(Err(e)) && e is AuthError && e.spec_status_code(stage)
            == 403,
{
}

/// A request for an image of which there is no record ends with a
/// `NotFoundError`, shown as 404.
pub proof fn lemma_unknown_key_is_not_found(
    request: DerivativeRequest,
    credential: AuthResponse,
    now: u64,
    stage: Stage,
    out: GetProgress,
)
    requires
        get_yields(
            GetState::LoadingRecord { request, credential },
            Event::Loaded(None),
            now,
            out,
        ),
    ensures
        out matches Progress::Finished(Err(e)) && e is NotFoundError && e.spec_status_code(stage)
            == 404,
{
}

} // verus!
