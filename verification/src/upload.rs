//! Taking in an uploaded image.
//!
//! The file is decoded once. The original is stored first, under the suffix
//! `orig`, and nothing else happens unless that succeeds. Then every
//! standard width below the original's is made and stored, side by side; one
//! that cannot be made or stored is left out and does not fail the others.
//! At the end the image's record is written with the widths that were
//! stored.

use vstd::prelude::*;
use vstd::string::*;

use crate::auth::{authorize, authorize_yields, granted, AuthState};
use crate::codec::{
    can_resize, content_type, decoded_size, fits, media_type, resize, sniffed_format, Format,
    Picture,
};
use crate::error::Error;
use crate::host::{Action, Event, Expect, Namespace, Progress, Stored};
use crate::origin::{spec_upload_url_request, AuthResponse};
use crate::record::{
    distinct_below, ladder, lemma_ladder_distinct_below, spec_ladder, StoredImage, StoredImageView,
};
use crate::text::{decimal_string, decimal_text};
use crate::transfer::{
    begin, stored, upload_file, upload_file_yields, UploadJob, UploadJobView, UploadState,
};
use crate::util::{logical_key, spec_filename_and_ext, spec_logical_key, stored_name};

verus! {

/// An uploaded file, and the scope and name it was uploaded under.
#[derive(Clone, Debug, PartialEq, Eq)]
pub struct Ingest {
    pub scope: String,
    pub filename: String,
    pub file: Vec<u8>,
}

/// What is known of an image while its files are being stored.
#[derive(Clone, Debug, PartialEq, Eq)]
pub struct Pending {
    pub key: String,
    pub name: String,
    pub ext: String,
    pub width: u32,
}

/// The variant of one width, made ready for upload; without an upload where
/// it could not be made.
#[derive(Clone, Debug, PartialEq, Eq)]
pub struct Variant {
    pub width: u32,
    pub job: Option<UploadJob>,
}

/// How far the taking in of an image has come.
#[derive(Clone, Debug, PartialEq, Eq)]
pub enum IngestState {
    /// A credential is being sought.
    Authorizing { input: Ingest, auth: AuthState },
    /// The original is being stored; the variants wait.
    UploadingOriginal { pending: Pending, upload: UploadState, variants: Vec<Variant> },
    /// The variants of these widths are being stored.
    UploadingVariants { pending: Pending, id: String, widths: Vec<u32> },
    /// The record is being written.
    SavingRecord { id: String },
}

/// How far the taking in of an image has come, or what it ended with: the
/// id of the stored original.
pub type IngestProgress = Progress<IngestState, Result<String, Error>>;

impl IngestState {
    /// The state in which the taking in of a file begins.
    pub fn new(scope: String, filename: String, file: Vec<u8>) -> (state: IngestState)
        ensures
            state == (IngestState::Authorizing {
                input: Ingest { scope, filename, file },
                auth: AuthState::Start,
            }),
    {
        IngestState::Authorizing { input: Ingest { scope, filename, file }, auth: AuthState::Start }
    }

    /// The widths that the state holds are below the width of the image, and
    /// no two are the same.
    pub open spec fn well_formed(self) -> bool {
        match self {
            IngestState::UploadingOriginal { pending, upload, variants } => distinct_below(
                widths_of(variants@),
                pending.width,
            ),
            IngestState::UploadingVariants { pending, id, widths } => distinct_below(
                widths@,
                pending.width,
            ),
            _ => true,
        }
    }
}

/// The step leaves a well-formed state, and a record that it writes is well
/// formed.
pub open spec fn keeps_form(out: IngestProgress) -> bool {
    out matches Progress::Continue(next, action) ==> next.well_formed() && (
    action matches Action::Save { value: Stored::Record(record), .. } ==> record.well_formed())
}

/// The items whose place is marked in `keep`, in their order.
pub open spec fn pick(items: Seq<u32>, keep: Seq<bool>) -> Seq<u32>
    decreases items.len(),
{
    if items.len() == 0 {
        items
    } else {
        let rest = pick(items.drop_last(), keep);
        if items.len() <= keep.len() && keep[items.len() - 1] {
            rest.push(items.last())
        } else {
            rest
        }
    }
}

/// The widths of the variants, in their order.
pub open spec fn widths_of(variants: Seq<Variant>) -> Seq<u32> {
    variants.map_values(|v: Variant| v.width)
}

/// For each variant, whether it could be made.
pub open spec fn made(variants: Seq<Variant>) -> Seq<bool> {
    variants.map_values(|v: Variant| v.job is Some)
}

/// The uploads of the variants that could be made, in their order, each
/// about to begin.
pub open spec fn present(variants: Seq<Variant>) -> Seq<UploadState>
    decreases variants.len(),
{
    if variants.len() == 0 {
        Seq::empty()
    } else {
        let rest = present(variants.drop_last());
        match variants.last().job {
            Some(job) => rest.push(UploadState::Start(job)),
            None => rest,
        }
    }
}

/// The record of an image whose files are stored.
pub open spec fn record_of(pending: Pending, id: Seq<char>, variants: Seq<u32>) -> StoredImageView {
    StoredImageView {
        id,
        name: pending.name@,
        format: pending.ext@,
        width: pending.width,
        variants,
    }
}

/// The upload of one file of an image.
pub open spec fn job_of(
    file: Seq<u8>,
    credential: AuthResponse,
    pending: Pending,
    suffix: Seq<char>,
) -> UploadJobView {
    UploadJobView {
        file,
        auth: credential,
        mime: media_type(pending.ext@),
        name: pending.name@,
        suffix,
        ext: pending.ext@,
    }
}

/// The entry of a variant, given the file that the encoder wrote for it, if
/// it wrote one: with the upload of that file, or without an upload.
pub open spec fn entry_is(
    entry: Variant,
    encoded: Option<Seq<u8>>,
    credential: AuthResponse,
    pending: Pending,
) -> bool {
    match encoded {
        Some(file) => entry.job matches Some(job) && job@ == job_of(
            file,
            credential,
            pending,
            decimal_text(entry.width as nat),
        ),
        None => entry.job is None,
    }
}

/// The entry of a variant of the given picture. Where the picture cannot be
/// brought to the variant's width, the entry has no upload. Otherwise the
/// picture is brought to that width, keeping its proportions, and the
/// encoder decides over that picture: the entry has the upload of the file
/// it writes, and none where it refuses.
pub open spec fn variant_made(
    entry: Variant,
    picture: Picture,
    format: Format,
    credential: AuthResponse,
    pending: Pending,
) -> bool {
    if can_resize(picture.width(), picture.height(), entry.width) {
        exists|small: Picture|
            fits(small, picture.width(), picture.height(), entry.width) && #[trigger] entry_is(
                entry,
                small.spec_encode(format),
                credential,
                pending,
            )
    } else {
        entry.job is None
    }
}

/// There is one entry for each of the widths, in their order, and each is
/// the entry of the variant of that width of the picture.
pub open spec fn variants_planned(
    variants: Seq<Variant>,
    widths: Seq<u32>,
    picture: Picture,
    format: Format,
    credential: AuthResponse,
    pending: Pending,
) -> bool {
    &&& widths_of(variants) == widths
    &&& forall|i: int|
        0 <= i < variants.len() ==> variant_made(
            #[trigger] variants[i],
            picture,
            format,
            credential,
            pending,
        )
}

/// The variant of one width, given what became of making and encoding it:
/// with the upload of the file, or without one where there is no file.
pub fn variant(
    width: u32,
    encoded: Result<Vec<u8>, Error>,
    credential: &AuthResponse,
    pending: &Pending,
) -> (entry: Variant)
    ensures
        entry.width == width,
        match encoded {
            Ok(file) => entry.job matches Some(job) && job@ == job_of(
                file@,
                *credential,
                *pending,
                decimal_text(width as nat),
            ),
            Err(_) => entry.job is None,
        },
{
    let job = match encoded {
        Ok(file) => Some(
            UploadJob {
                file,
                auth: credential.duplicate(),
                mime: content_type(pending.ext.as_str()),
                name: pending.name.clone(),
                suffix: decimal_string(width),
                ext: pending.ext.clone(),
            },
        ),
        Err(_) => None,
    };
    Variant { width, job }
}

/// Makes and encodes the variant of each width, for upload. A width that
/// the picture cannot be brought to, or whose variant the encoder refuses,
/// gets no upload; every other width gets the upload of its encoded
/// variant.
pub fn upload_variants(
    picture: &Picture,
    widths: &Vec<u32>,
    credential: &AuthResponse,
    pending: &Pending,
    format: Format,
) -> (variants: Vec<Variant>)
    ensures
        variants_planned(variants@, widths@, *picture, format, *credential, *pending),
{
    let mut variants: Vec<Variant> = Vec::new();
    let mut i: usize = 0;
    assert(widths_of(variants@) =~= widths@.take(0));
    while i < widths.len()
        invariant
            i <= widths.len(),
            variants_planned(
                variants@,
                widths@.take(i as int),
                *picture,
                format,
                *credential,
                *pending,
            ),
        decreases widths.len() - i,
    {
        let w = widths[i];
        let entry = match resize(picture, w) {
            Ok(small) => {
                let entry = variant(w, small.encode(format), credential, pending);
                assert(fits(small, picture.width(), picture.height(), w));
                assert(entry_is(entry, small.spec_encode(format), *credential, *pending));
                entry
            },
            Err(e) => variant(w, Err(e), credential, pending),
        };
        assert(variant_made(entry, *picture, format, *credential, *pending));
        let ghost before = variants@;
        variants.push(entry);
        proof {
            assert(widths_of(before) == widths@.take(i as int));
            assert(widths_of(before).len() == before.len());
            assert(widths@.take(i as int).len() == i);
            assert(variants@.len() == i + 1);
            assert(widths_of(variants@) =~= widths@.take(i as int + 1)) by {
                assert forall|k: int| 0 <= k < variants@.len() implies widths_of(variants@)[k]
                    == widths@.take(i as int + 1)[k] by {
                    if k < i {
                        assert(variants@[k] == before[k]);
                        assert(widths_of(before)[k] == widths@.take(i as int)[k]);
                    }
                }
            }
            assert forall|k: int| 0 <= k < variants@.len() implies variant_made(
                #[trigger] variants@[k],
                *picture,
                format,
                *credential,
                *pending,
            ) by {
                if k < i {
                    assert(variants@[k] == before[k]);
                }
            }
        }
        i = i + 1;
    }
    assert(widths@.take(i as int) =~= widths@);
    variants
}

/// The request ends because the file is no image that can be read and
/// written.
pub open spec fn decode_failed(out: IngestProgress) -> bool {
    out matches Progress::Finished(Err(e)) && e is DecodeError
}

/// What becomes of an upload once its file is decoded to the given
/// picture. A picture that the encoder refuses to write again ends the
/// request with a `DecodeError`. Otherwise the upload of the re-encoded
/// original begins, and the variants are made ready: one entry for each
/// standard width below the width of the picture.
pub open spec fn prepared_from(
    picture: Picture,
    input: Ingest,
    format: Format,
    credential: AuthResponse,
    out: IngestProgress,
) -> bool {
    match picture.spec_encode(format) {
        None => decode_failed(out),
        Some(original) => {
            &&& out matches Progress::Continue(
                IngestState::UploadingOriginal { pending, upload, variants },
                action,
            )
            &&& pending.key@ == spec_logical_key(input.scope@, input.filename@)
            &&& (pending.name@, pending.ext@) == spec_filename_and_ext(
                input.scope@,
                input.filename@,
                format,
            )
            &&& pending.width == picture.width()
            &&& variants_planned(
                variants@,
                spec_ladder(picture.width()),
                picture,
                format,
                credential,
                pending,
            )
            &&& upload matches UploadState::RequestingUrl(job)
            &&& job@ == job_of(original, credential, pending, "orig"@)
            &&& action.sends(spec_upload_url_request(credential), Expect::UploadUrl)
        },
    }
}

/// What becomes of an upload once a credential is at hand.
///
/// The format is told from the content of the file, not from its name. A
/// file of none of the formats handled, or one that the decoder refuses,
/// ends the request with a `DecodeError`. Otherwise the file decodes to a
/// picture of the size that the decoder gives for it, and the upload goes on
/// from that picture.
pub open spec fn prepared_yields(input: Ingest, credential: AuthResponse, out: IngestProgress)
    -> bool {
    match sniffed_format(input.file@) {
        None => decode_failed(out),
        Some(format) => match decoded_size(input.file@, format) {
            None => decode_failed(out),
            Some((width, height)) => exists|picture: Picture|
                picture.width() == width && picture.height() == height && #[trigger] prepared_from(
                    picture,
                    input,
                    format,
                    credential,
                    out,
                ),
        },
    }
}

/// The upload of the original begins, and the variants wait for it.
pub open spec fn original_begun(
    pending: Pending,
    credential: AuthResponse,
    original: Seq<u8>,
    variants: Vec<Variant>,
    out: IngestProgress,
) -> bool {
    &&& out matches Progress::Continue(
        IngestState::UploadingOriginal { pending: p, upload, variants: v },
        action,
    )
    &&& p == pending
    &&& v == variants
    &&& upload matches UploadState::RequestingUrl(job)
    &&& job@ == job_of(original, credential, pending, "orig"@)
    &&& action.sends(spec_upload_url_request(credential), Expect::UploadUrl)
}

/// Begins the upload of the encoded original, under the suffix `orig`.
pub fn begin_original(
    pending: Pending,
    credential: AuthResponse,
    original: Vec<u8>,
    variants: Vec<Variant>,
) -> (out: IngestProgress)
    ensures
        original_begun(pending, credential, original@, variants, out),
{
    let job = UploadJob {
        file: original,
        auth: credential,
        mime: content_type(pending.ext.as_str()),
        name: pending.name.clone(),
        suffix: String::from_str("orig"),
        ext: pending.ext.clone(),
    };
    let (upload, action) = begin(job);
    Progress::Continue(IngestState::UploadingOriginal { pending, upload, variants }, action)
}

/// Goes on with an upload once its file is decoded: encodes the original
/// again, makes the variants ready and begins the upload of the original.
pub fn prepare_from(picture: &Picture, input: Ingest, format: Format, credential: AuthResponse)
    -> (out: IngestProgress)
    ensures
        prepared_from(*picture, input, format, credential, out),
        keeps_form(out),
{
    let original = match picture.encode(format) {
        Ok(original) => original,
        Err(e) => {
            return Progress::Finished(Err(e));
        },
    };
    let (name, ext) = stored_name(input.scope.as_str(), input.filename.as_str(), format);
    let pending = Pending {
        key: logical_key(input.scope.as_str(), input.filename.as_str()),
        name,
        ext,
        width: picture.width(),
    };
    let widths = ladder(pending.width);
    proof {
        lemma_ladder_distinct_below(pending.width);
    }
    let variants = upload_variants(picture, &widths, &credential, &pending, format);
    begin_original(pending, credential, original, variants)
}

/// Decodes an uploaded file and makes its uploads ready.
pub fn prepare(input: Ingest, credential: AuthResponse) -> (out: IngestProgress)
    ensures
        prepared_yields(input, credential, out),
        keeps_form(out),
{
    let format = match Format::sniff(input.file.as_slice()) {
        Some(format) => format,
        None => {
            return Progress::Finished(Err(Error::decode("Unrecognized image format")));
        },
    };
    let picture = match Picture::decode(input.file.as_slice(), format) {
        Ok(picture) => picture,
        Err(e) => {
            return Progress::Finished(Err(e));
        },
    };
    let out = prepare_from(&picture, input, format, credential);
    assert(prepared_from(picture, input, format, credential, out));
    out
}

/// Parts the variants that could be made from the others: the widths of
/// the former, and their uploads.
pub fn split(variants: Vec<Variant>) -> (parts: (Vec<u32>, Vec<UploadState>))
    ensures
        parts.0@ == pick(widths_of(variants@), made(variants@)),
        parts.1@ == present(variants@),
        parts.0@.len() == parts.1@.len(),
{
    let mut kept: Vec<u32> = Vec::new();
    let mut uploads: Vec<UploadState> = Vec::new();
    let mut rest = variants;
    let ghost total = variants@.len();
    let ghost mut i: int = 0;
    assert(widths_of(variants@).take(0) =~= Seq::<u32>::empty());
    assert(variants@.take(0) =~= Seq::<Variant>::empty());
    assert(rest@.skip(0) =~= rest@);
    while rest.len() > 0
        invariant
            0 <= i <= total,
            total == variants@.len(),
            rest@ == variants@.skip(i),
            kept@ == pick(widths_of(variants@).take(i), made(variants@)),
            uploads@ == present(variants@.take(i)),
            kept@.len() == uploads@.len(),
        decreases rest.len(),
    {
        let entry = rest.remove(0);
        proof {
            assert(entry == variants@[i]);
            assert(rest@ =~= variants@.skip(i + 1));
            assert(widths_of(variants@).take(i + 1).drop_last() =~= widths_of(
                variants@,
            ).take(i));
            assert(variants@.take(i + 1).drop_last() =~= variants@.take(i));
            assert(made(variants@)[i] == (variants@[i].job is Some));
            assert(widths_of(variants@)[i] == variants@[i].width);
        }
        match entry.job {
            Some(job) => {
                kept.push(entry.width);
                uploads.push(UploadState::Start(job));
            },
            None => {},
        }
        proof {
            i = i + 1;
        }
    }
    assert(widths_of(variants@).take(i) =~= widths_of(variants@));
    assert(variants@.take(i) =~= variants@);
    (kept, uploads)
}

/// What becomes of an upload once the original is stored under `id`.
///
/// Where no variant could be made, the record is written at once, without
/// variants. Otherwise the uploads of the variants are handed to the host.
pub open spec fn original_stored_yields(
    pending: Pending,
    id: String,
    variants: Seq<Variant>,
    out: IngestProgress,
) -> bool {
    let kept = pick(widths_of(variants), made(variants));
    if kept.len() == 0 {
        out matches Progress::Continue(IngestState::SavingRecord { id: i }, action) && i == id
            && action.saves_record(pending.key@, record_of(pending, id@, Seq::empty()))
    } else {
        &&& out matches Progress::Continue(
            IngestState::UploadingVariants { pending: p, id: i, widths: k },
            Action::UploadAll { uploads },
        )
        &&& p == pending
        &&& i == id
        &&& k@ == kept
        &&& uploads@ == present(variants)
    }
}

fn save_record(pending: Pending, id: String, variants: Vec<u32>) -> (out: IngestProgress)
    ensures
        out matches Progress::Continue(IngestState::SavingRecord { id: i }, action) && i == id
            && action.saves_record(pending.key@, record_of(pending, id@, variants@)),
        distinct_below(variants@, pending.width) ==> keeps_form(out),
{
    let record = StoredImage {
        id: id.clone(),
        name: pending.name,
        format: pending.ext,
        width: pending.width,
        variants,
    };
    Progress::Continue(
        IngestState::SavingRecord { id },
        Action::Save {
            namespace: Namespace::Images,
            key: pending.key,
            value: Stored::Record(record),
            ttl: None,
        },
    )
}

/// Goes on after the original has been stored.
pub fn original_stored(pending: Pending, id: String, variants: Vec<Variant>) -> (out:
    IngestProgress)
    ensures
        original_stored_yields(pending, id, variants@, out),
        distinct_below(widths_of(variants@), pending.width) ==> keeps_form(out),
{
    proof {
        if distinct_below(widths_of(variants@), pending.width) {
            lemma_pick_distinct_below(widths_of(variants@), made(variants@), pending.width);
        }
    }
    let (kept, uploads) = split(variants);
    if kept.len() == 0 {
        let out = save_record(pending, id, kept);
        assert(kept@ =~= Seq::<u32>::empty());
        out
    } else {
        Progress::Continue(
            IngestState::UploadingVariants { pending, id, widths: kept },
            Action::UploadAll { uploads },
        )
    }
}

/// Keeps the widths whose place is marked in `keep`.
pub fn pick_widths(widths: &Vec<u32>, keep: &Vec<bool>) -> (kept: Vec<u32>)
    ensures
        kept@ == pick(widths@, keep@),
{
    let mut kept: Vec<u32> = Vec::new();
    let mut i: usize = 0;
    assert(widths@.take(0) =~= Seq::<u32>::empty());
    while i < widths.len()
        invariant
            i <= widths.len(),
            kept@ == pick(widths@.take(i as int), keep@),
        decreases widths.len() - i,
    {
        proof {
            assert(widths@.take(i as int + 1).drop_last() =~= widths@.take(i as int));
        }
        if i < keep.len() && keep[i] {
            kept.push(widths[i]);
        }
        i = i + 1;
    }
    assert(widths@.take(i as int) =~= widths@);
    kept
}

/// What the host reported of the uploads of the variants: for each, in
/// order, whether it succeeded. Any other event counts as none succeeded.
pub open spec fn reported(event: Event) -> Seq<bool> {
    match event {
        Event::Uploaded(flags) => flags@,
        _ => Seq::empty(),
    }
}

/// One step of taking in an uploaded image, at the second `now`.
///
/// While a credential is sought, the steps of that search are passed on, and
/// its failure ends the request. With a credential the file is decoded and
/// the upload of the original begins. While that upload runs, its steps are
/// passed on; its failure ends the request. Once the original is stored,
/// the variants are stored side by side, and when all have ended, the record
/// is written with the widths of those that succeeded. The request succeeds
/// with the id of the stored original once the record is written; a record
/// that cannot be written ends it with an `UpstreamError`.
pub open spec fn upload_yields(state: IngestState, event: Event, now: u64, out: IngestProgress)
    -> bool {
    match state {
        IngestState::Authorizing { input, auth } => match granted(auth, event, now) {
            Some(credential) => prepared_yields(input, credential, out),
            None => match out {
                Progress::Continue(IngestState::Authorizing { input: i, auth: next }, action) => i
                    == input && authorize_yields(auth, event, now, Progress::Continue(next, action)),
                Progress::Finished(Err(e)) => authorize_yields(
                    auth,
                    event,
                    now,
                    Progress::Finished(Err(e)),
                ),
                _ => false,
            },
        },
        IngestState::UploadingOriginal { pending, upload, variants } => match stored(
            upload,
            event,
        ) {
            Some(receipt) => original_stored_yields(pending, receipt.file_id, variants@, out),
            None => match out {
                Progress::Continue(
                    IngestState::UploadingOriginal { pending: p, upload: next, variants: v },
                    action,
                ) => p == pending && v == variants && upload_file_yields(
                    upload,
                    event,
                    Progress::Continue(next, action),
                ),
                Progress::Finished(Err(e)) => upload_file_yields(
                    upload,
                    event,
                    Progress::Finished(Err(e)),
                ),
                _ => false,
            },
        },
        IngestState::UploadingVariants { pending, id, widths } => out matches Progress::Continue(
            IngestState::SavingRecord { id: i },
            action,
        ) && i == id && action.saves_record(
            pending.key@,
            record_of(pending, id@, pick(widths@, reported(event))),
        ),
        IngestState::SavingRecord { id } => match event {
            Event::Saved => out == IngestProgress::Finished(Ok(id)),
            _ => out matches Progress::Finished(Err(e)) && e is UpstreamError && e.text()
                == "Cannot write the image record"@,
        },
    }
}

/// Takes the taking in of an uploaded image one step further.
pub fn upload(state: IngestState, event: Event, now: u64) -> (out: IngestProgress)
    ensures
        upload_yields(state, event, now, out),
        state.well_formed() ==> keeps_form(out),
{
    match state {
        IngestState::Authorizing { input, auth } => match authorize(auth, event, now) {
            Progress::Continue(next, action) => Progress::Continue(
                IngestState::Authorizing { input, auth: next },
                action,
            ),
            Progress::Finished(Ok(credential)) => prepare(input, credential),
            Progress::Finished(Err(e)) => Progress::Finished(Err(e)),
        },
        IngestState::UploadingOriginal { pending, upload, variants } => match upload_file(
            upload,
            event,
        ) {
            Progress::Continue(next, action) => Progress::Continue(
                IngestState::UploadingOriginal { pending, upload: next, variants },
                action,
            ),
            Progress::Finished(Ok(receipt)) => original_stored(pending, receipt.file_id, variants),
            Progress::Finished(Err(e)) => Progress::Finished(Err(e)),
        },
        IngestState::UploadingVariants { pending, id, widths } => {
            let kept = match event {
                Event::Uploaded(flags) => pick_widths(&widths, &flags),
                _ => Vec::new(),
            };
            proof {
                lemma_pick_nothing(widths@);
                if distinct_below(widths@, pending.width) {
                    lemma_pick_distinct_below(widths@, reported(event), pending.width);
                }
            }
            save_record(pending, id, kept)
        },
        IngestState::SavingRecord { id } => match event {
            Event::Saved => Progress::Finished(Ok(id)),
            _ => Progress::Finished(Err(Error::upstream("Cannot write the image record"))),
        },
    }
}

/// Whatever is picked from a list was in the list.
pub proof fn lemma_pick_within(items: Seq<u32>, keep: Seq<bool>, w: u32)
    requires
        pick(items, keep).contains(w),
    ensures
        items.contains(w),
    decreases items.len(),
{
    if items.len() > 0 {
        let rest = pick(items.drop_last(), keep);
        if rest.contains(w) {
            lemma_pick_within(items.drop_last(), keep, w);
            let i = choose|i: int| 0 <= i < items.drop_last().len() && items.drop_last()[i] == w;
            assert(items[i] == w);
        } else {
            let i = choose|i: int| 0 <= i < pick(items, keep).len() && pick(items, keep)[i] == w;
            if i < rest.len() {
                assert(rest[i] == w);
                assert(rest.contains(w));
            }
            assert(items[items.len() - 1] == w);
        }
    }
}

/// Picking from widths that are distinct and below a bound leaves widths
/// that are distinct and below that bound.
pub proof fn lemma_pick_distinct_below(items: Seq<u32>, keep: Seq<bool>, width: u32)
    requires
        distinct_below(items, width),
    ensures
        distinct_below(pick(items, keep), width),
    decreases items.len(),
{
    if items.len() > 0 {
        let front = items.drop_last();
        let rest = pick(front, keep);
        assert(distinct_below(front, width)) by {
            assert forall|a: int, b: int| 0 <= a < front.len() && 0 <= b < front.len() && a != b implies front[a]
                != front[b] by {
                assert(items[a] != items[b]);
            }
            assert forall|i: int| 0 <= i < front.len() implies front[i] < width by {
                assert(items[i] < width);
            }
        }
        lemma_pick_distinct_below(front, keep, width);
        let all = pick(items, keep);
        if all != rest {
            assert(all == rest.push(items.last()));
            assert forall|a: int, b: int| 0 <= a < all.len() && 0 <= b < all.len() && a != b implies all[a]
                != all[b] by {
                if a < rest.len() && b < rest.len() {
                } else {
                    let inner = if a < rest.len() {
                        a
                    } else {
                        b
                    };
                    if rest[inner] == items.last() {
                        assert(rest.contains(items.last()));
                        lemma_pick_within(front, keep, items.last());
                        let k = choose|k: int| 0 <= k < front.len() && front[k] == items.last();
                        assert(items[k] == items[items.len() - 1]);
                    }
                }
            }
            assert forall|i: int| 0 <= i < all.len() implies all[i] < width by {
                if i < rest.len() {
                    assert(all[i] == rest[i]);
                } else {
                    assert(all[i] == items[items.len() - 1]);
                }
            }
        }
    }
}

/// Where no place is marked, nothing is picked.
pub proof fn lemma_pick_nothing(items: Seq<u32>)
    ensures
        pick(items, Seq::empty()) == Seq::<u32>::empty(),
    decreases items.len(),
{
    if items.len() > 0 {
        lemma_pick_nothing(items.drop_last());
    }
}

/// Where every place is marked, everything is picked.
pub proof fn lemma_pick_everything(items: Seq<u32>, keep: Seq<bool>)
    requires
        items.len() <= keep.len(),
        forall|i: int| 0 <= i < items.len() ==> keep[i],
    ensures
        pick(items, keep) == items,
    decreases items.len(),
{
    if items.len() > 0 {
        lemma_pick_everything(items.drop_last(), keep);
        assert(items.drop_last().push(items.last()) =~= items);
    }
}

/// Where every variant could be made, every variant has its upload, in
/// their order.
pub proof fn lemma_present_everything(variants: Seq<Variant>)
    requires
        forall|i: int| 0 <= i < variants.len() ==> (#[trigger] variants[i]).job is Some,
    ensures
        present(variants).len() == variants.len(),
        forall|i: int|
            0 <= i < variants.len() ==> #[trigger] present(variants)[i] == UploadState::Start(
                variants[i].job->0,
            ),
    decreases variants.len(),
{
    if variants.len() > 0 {
        let front = variants.drop_last();
        assert forall|i: int| 0 <= i < front.len() implies (#[trigger] front[i]).job is Some by {
            assert(front[i] == variants[i]);
        }
        lemma_present_everything(front);
        assert(variants.last() == variants[variants.len() - 1]);
        assert forall|i: int| 0 <= i < variants.len() implies #[trigger] present(variants)[i]
            == UploadState::Start(variants[i].job->0) by {
            if i < front.len() {
                assert(present(variants)[i] == present(front)[i]);
                assert(front[i] == variants[i]);
            }
        }
    }
}

} // verus!
