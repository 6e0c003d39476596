//! Content hashes and the naming of stored files.

use sha1::{Digest, Sha1};
use vstd::prelude::*;
use vstd::string::*;

use crate::codec::{
    extensions, format_of_extension, lemma_extension_leads_back, texts, Format,
};
use crate::error::Error;
use crate::hex::{encode_hex, hex_text};
use crate::text::{ends_with, is_suffix};

verus! {

/// The SHA-1 digest of a byte string.
pub uninterp spec fn sha1_digest(bytes: Seq<u8>) -> Seq<u8>;

/// Calls `Sha1::digest`, which hashes the bytes in one go. The digest is
/// twenty bytes long and depends on the bytes alone; the contract gives it a
/// name.
#[verifier::external_body]
fn sha1(file: &[u8]) -> (digest: Vec<u8>)
    ensures
        digest@ == sha1_digest(file@),
        digest@.len() == 20,
{
    Sha1::digest(file).to_vec()
}

/// The content hash that the origin checks an upload against: the SHA-1
/// digest of the payload in lower-case hexadecimal, forty characters.
pub fn content_hash(file: &[u8]) -> (text: String)
    ensures
        text@ == hex_text(sha1_digest(file@)),
        text@.len() == 40,
{
    let digest = sha1(file);
    encode_hex(digest.as_slice())
}

/// The content hash of a payload. It never fails.
pub fn get_hash(file: &[u8]) -> (hash: Result<String, Error>)
    ensures
        hash matches Ok(text) && text@ == hex_text(sha1_digest(file@)) && text@.len() == 40,
{
    Ok(content_hash(file))
}

/// The key under which an image is known: its scope, a slash and its file
/// name.
pub open spec fn spec_logical_key(scope: Seq<char>, filename: Seq<char>) -> Seq<char> {
    scope + "/"@ + filename
}

/// Joins a scope and a file name into the key of an image.
pub fn logical_key(scope: &str, filename: &str) -> (key: String)
    ensures
        key@ == spec_logical_key(scope@, filename@),
{
    let mut key = String::from_str(scope);
    key.append("/");
    key.append(filename);
    key
}

/// The first extension of the list that the file name ends with, after a
/// dot.
pub open spec fn matching_extension(filename: Seq<char>, list: Seq<Seq<char>>) -> Option<
    Seq<char>,
>
    decreases list.len(),
{
    if list.len() == 0 {
        None
    } else if is_suffix("."@ + list[0], filename) {
        Some(list[0])
    } else {
        matching_extension(filename, list.skip(1))
    }
}

/// The name under which an image is stored, and the extension of its files.
///
/// Where the file name ends with a dot and one of the format's extensions,
/// that is the extension, and the name is the key without the dot and the
/// extension. Otherwise the name is the whole key and the extension is the
/// one the format prefers.
pub open spec fn spec_filename_and_ext(scope: Seq<char>, filename: Seq<char>, format: Format) -> (
    Seq<char>,
    Seq<char>,
) {
    let key = spec_logical_key(scope, filename);
    match matching_extension(filename, extensions(format)) {
        Some(ext) => (key.subrange(0, key.len() - ext.len() - 1), ext),
        None => (key, extensions(format)[0]),
    }
}

/// Derives the stored name and the extension of an image from its scope,
/// its file name and its format. Every format has an extension, so this
/// never fails.
pub fn get_filename_and_ext(scope: &str, filename: &str, format: Format) -> (r: Result<
    (String, String),
    Error,
>)
    ensures
        r matches Ok(pair) && (pair.0@, pair.1@) == spec_filename_and_ext(
            scope@,
            filename@,
            format,
        ),
{
    Ok(stored_name(scope, filename, format))
}

/// Derives the stored name and the extension of an image from its scope,
/// its file name and its format.
pub fn stored_name(scope: &str, filename: &str, format: Format) -> (pair: (String, String))
    ensures
        (pair.0@, pair.1@) == spec_filename_and_ext(scope@, filename@, format),
{
    let key = logical_key(scope, filename);
    let list = format.extension_list();
    assert(texts(list@).len() == list@.len());
    assert(extensions(format).skip(0) =~= extensions(format));
    proof {
        reveal_strlit("/");
        reveal_strlit(".");
    }
    let mut i: usize = 0;
    while i < list.len()
        invariant
            i <= list.len(),
            texts(list@) == extensions(format),
            texts(list@).len() == list@.len(),
            key@ == spec_logical_key(scope@, filename@),
            "/"@.len() == 1,
            "."@.len() == 1,
            matching_extension(filename@, extensions(format)) == matching_extension(
                filename@,
                extensions(format).skip(i as int),
            ),
        decreases list.len() - i,
    {
        let ext = list[i].as_str();
        let ghost rest = extensions(format).skip(i as int);
        assert(rest[0] == texts(list@)[i as int]);
        assert(texts(list@)[i as int] == list@[i as int]@);
        let mut dotted = String::from_str(".");
        dotted.append(ext);
        if ends_with(filename, dotted.as_str()) {
            let total = key.as_str().unicode_len();
            let cut = ext.unicode_len();
            assert(ext@.len() + 1 <= filename@.len());
            let name = key.as_str().substring_char(0, total - cut - 1);
            return (String::from_str(name), String::from_str(ext));
        }
        assert(rest.skip(1) =~= extensions(format).skip(i as int + 1));
        i = i + 1;
    }
    assert(extensions(format).skip(i as int).len() == 0);
    assert(texts(list@)[0] == list@[0]@);
    (key, list[0].clone())
}

/// The extension under which an image is stored is one of its format's.
pub proof fn lemma_stored_extension_belongs_to_format(
    scope: Seq<char>,
    filename: Seq<char>,
    format: Format,
)
    ensures
        extensions(format).contains(spec_filename_and_ext(scope, filename, format).1),
        format_of_extension(spec_filename_and_ext(scope, filename, format).1) == Some(format),
{
    lemma_match_is_listed(filename, extensions(format));
    let ext = spec_filename_and_ext(scope, filename, format).1;
    assert(extensions(format).len() > 0);
    assert(extensions(format).contains(extensions(format)[0]));
    let k = choose|k: int| 0 <= k < extensions(format).len() && extensions(format)[k] == ext;
    lemma_extension_leads_back(format, k);
}

proof fn lemma_match_is_listed(filename: Seq<char>, list: Seq<Seq<char>>)
    ensures
        matching_extension(filename, list) matches Some(ext) ==> list.contains(ext),
    decreases list.len(),
{
    if list.len() > 0 {
        if is_suffix("."@ + list[0], filename) {
            assert(list.contains(list[0]));
        } else {
            lemma_match_is_listed(filename, list.skip(1));
            match matching_extension(filename, list.skip(1)) {
                Some(ext) => {
                    let k = choose|k: int| 0 <= k < list.skip(1).len() && list.skip(1)[k] == ext;
                    assert(list[k + 1] == ext);
                },
                None => {},
            }
        }
    }
}

/// A JPEG is stored under the extension `jpg`, whatever its file name,
/// unless the name ends in `.jpeg`: then its files keep that extension, so
/// that they are found again under the name they were stored with.
pub proof fn lemma_extension_of_a_jpeg(scope: Seq<char>, filename: Seq<char>)
    ensures
        spec_filename_and_ext(scope, filename, Format::Jpeg).1 == if is_suffix(
            "."@ + "jpeg"@,
            filename,
        ) {
            "jpeg"@
        } else {
            "jpg"@
        },
{
    reveal_strlit(".");
    reveal_strlit("jpg");
    reveal_strlit("jpeg");
    let list = extensions(Format::Jpeg);
    assert(list.skip(1)[0] == "jpeg"@);
    assert(list.skip(1).skip(1).len() == 0);
    reveal_with_fuel(matching_extension, 3);
    let short = "."@ + "jpg"@;
    let long = "."@ + "jpeg"@;
    if is_suffix(long, filename) && is_suffix(short, filename) {
        let n = filename.len() as int;
        assert(filename.subrange(n - 5, n)[1] == long[1]);
        assert(filename.subrange(n - 4, n)[0] == short[0]);
        assert(filename[n - 4] == 'j');
        assert(filename[n - 4] == '.');
    }
}

} // verus!
