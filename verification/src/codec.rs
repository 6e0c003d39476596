//! The raster formats the service handles, and the calls into the `image`
//! crate that sniff, decode, resample and encode them.

use vstd::prelude::*;
use vstd::string::*;

use crate::error::Error;

verus! {

/// A raster format that can be both read and written.
#[derive(Clone, Copy, Debug, PartialEq, Eq, Structural)]
pub enum Format {
    Png,
    Jpeg,
    Gif,
    WebP,
    Bmp,
}

/// Declares `image::DynamicImage`, the decoded pixels. Nothing is known of
/// what a value holds.
#[verifier::external_type_specification]
#[verifier::external_body]
pub struct ExDynamicImage(image::DynamicImage);

/// Declares `image::ImageError`, the failure of a decoder or encoder.
/// Nothing is known of what a value holds.
#[verifier::external_type_specification]
#[verifier::external_body]
pub struct ExImageError(image::ImageError);

/// Whether `bytes` begins with `magic`.
pub open spec fn starts_with(bytes: Seq<u8>, magic: Seq<u8>) -> bool {
    magic.len() <= bytes.len() && bytes.subrange(0, magic.len() as int) == magic
}

/// The format that the leading bytes of a file announce, if it is one of
/// those handled here.
pub open spec fn sniffed_format(bytes: Seq<u8>) -> Option<Format> {
    if starts_with(bytes, seq![0x89u8, 0x50, 0x4e, 0x47, 0x0d, 0x0a, 0x1a, 0x0a]) {
        Some(Format::Png)
    } else if starts_with(bytes, seq![0xffu8, 0xd8, 0xff]) {
        Some(Format::Jpeg)
    } else if starts_with(bytes, seq![0x47u8, 0x49, 0x46, 0x38, 0x39, 0x61]) || starts_with(
        bytes,
        seq![0x47u8, 0x49, 0x46, 0x38, 0x37, 0x61],
    ) {
        Some(Format::Gif)
    } else if starts_with(bytes, seq![0x52u8, 0x49, 0x46, 0x46]) {
        Some(Format::WebP)
    } else if starts_with(bytes, seq![0x42u8, 0x4d]) {
        Some(Format::Bmp)
    } else {
        None
    }
}

/// Calls `image::guess_format`, which compares the start of the buffer with
/// a table of signatures. The contract states that table for the five
/// formats handled here; a buffer that announces any other format, or none,
/// gives `None`.
#[verifier::external_body]
fn guess_format(bytes: &[u8]) -> (format: Option<Format>)
    ensures
        format == sniffed_format(bytes@),
{
    match image::guess_format(bytes) {
        Ok(image::ImageFormat::Png) => Some(Format::Png),
        Ok(image::ImageFormat::Jpeg) => Some(Format::Jpeg),
        Ok(image::ImageFormat::Gif) => Some(Format::Gif),
        Ok(image::ImageFormat::WebP) => Some(Format::WebP),
        Ok(image::ImageFormat::Bmp) => Some(Format::Bmp),
        _ => None,
    }
}

/// The file extensions of a format, the preferred one first.
pub open spec fn extensions(format: Format) -> Seq<Seq<char>> {
    match format {
        Format::Png => seq!["png"@],
        Format::Jpeg => seq!["jpg"@, "jpeg"@],
        Format::Gif => seq!["gif"@],
        Format::WebP => seq!["webp"@],
        Format::Bmp => seq!["bmp"@],
    }
}

/// The view of each string of a list.
pub open spec fn texts(list: Seq<String>) -> Seq<Seq<char>> {
    list.map_values(|s: String| s@)
}

/// Calls `ImageFormat::extensions_str`, which returns a fixed list for each
/// format. The contract repeats that list.
#[verifier::external_body]
fn extensions_str(format: Format) -> (list: Vec<String>)
    ensures
        texts(list@) == extensions(format),
{
    let outside = match format {
        Format::Png => image::ImageFormat::Png,
        Format::Jpeg => image::ImageFormat::Jpeg,
        Format::Gif => image::ImageFormat::Gif,
        Format::WebP => image::ImageFormat::WebP,
        Format::Bmp => image::ImageFormat::Bmp,
    };
    outside.extensions_str().iter().map(|e| e.to_string()).collect()
}

/// The lower-case form of an ASCII letter; any other character stays.
pub open spec fn ascii_lower(c: char) -> char {
    if 'A' <= c && c <= 'Z' {
        ((c as u8) + 32) as char
    } else {
        c
    }
}

/// The format that a file extension stands for, whatever its case, if it is
/// one of those handled here.
pub open spec fn format_of_extension(ext: Seq<char>) -> Option<Format> {
    let lower = ext.map_values(|c: char| ascii_lower(c));
    if lower == "jpg"@ || lower == "jpeg"@ {
        Some(Format::Jpeg)
    } else if lower == "png"@ {
        Some(Format::Png)
    } else if lower == "gif"@ {
        Some(Format::Gif)
    } else if lower == "webp"@ {
        Some(Format::WebP)
    } else if lower == "bmp"@ {
        Some(Format::Bmp)
    } else {
        None
    }
}

/// Calls `ImageFormat::from_extension`, which lowers the ASCII letters of the
/// extension and looks the result up in a fixed table. The contract states
/// that table for the five formats handled here; any other extension gives
/// `None`.
#[verifier::external_body]
fn from_extension(ext: &str) -> (format: Option<Format>)
    ensures
        format == format_of_extension(ext@),
{
    match image::ImageFormat::from_extension(ext) {
        Some(image::ImageFormat::Png) => Some(Format::Png),
        Some(image::ImageFormat::Jpeg) => Some(Format::Jpeg),
        Some(image::ImageFormat::Gif) => Some(Format::Gif),
        Some(image::ImageFormat::WebP) => Some(Format::WebP),
        Some(image::ImageFormat::Bmp) => Some(Format::Bmp),
        _ => None,
    }
}

/// A decoded image: its size in pixels, and the pixels themselves as the
/// `image` crate holds them.
#[derive(Debug)]
pub struct Picture {
    width: u32,
    height: u32,
    pixels: image::DynamicImage,
}

/// The size, width first, of the picture that a file of the given format
/// decodes to; `None` where the decoder refuses the file.
pub uninterp spec fn decoded_size(bytes: Seq<u8>, format: Format) -> Option<(u32, u32)>;

/// Calls `image::load_from_memory_with_format`. Whether the decoder accepts
/// the buffer, and the size of the picture it yields, depend on the bytes
/// and the format alone; the contract gives the size a name. The pixels get
/// no name: the JPEG decoder rounds differently where it finds vector
/// instructions, so they may differ from one machine to the next.
#[verifier::external_body]
fn load_from_memory_with_format(bytes: &[u8], format: Format) -> (r: Result<
    Picture,
    image::ImageError,
>)
    ensures
        r is Ok <==> decoded_size(bytes@, format) is Some,
        r matches Ok(p) ==> decoded_size(bytes@, format) == Some((p.width, p.height)),
{
    let outside = match format {
        Format::Png => image::ImageFormat::Png,
        Format::Jpeg => image::ImageFormat::Jpeg,
        Format::Gif => image::ImageFormat::Gif,
        Format::WebP => image::ImageFormat::WebP,
        Format::Bmp => image::ImageFormat::Bmp,
    };
    let pixels = image::load_from_memory_with_format(bytes, outside)?;
    Ok(Picture { width: pixels.width(), height: pixels.height(), pixels })
}

/// Calls `image::imageops::resize` with the Catmull-Rom filter. The image
/// that comes back has exactly the size asked for. Its pixels come out of
/// floating-point arithmetic whose precision the standard library leaves
/// open, so they get no name. The source must hold at least one pixel, and
/// the target is no larger than the source in either direction, so that the
/// buffers the call allocates are bounded by the source.
#[verifier::external_body]
fn resample(picture: &Picture, width: u32, height: u32) -> (r: Picture)
    requires
        0 < width <= picture.width,
        0 < height <= picture.height,
    ensures
        r.width == width,
        r.height == height,
{
    let filter = image::imageops::FilterType::CatmullRom;
    let buffer = image::imageops::resize(&picture.pixels, width, height, filter);
    Picture {
        width: buffer.width(),
        height: buffer.height(),
        pixels: image::DynamicImage::ImageRgba8(buffer),
    }
}

/// The file that the encoder of the given format writes for a picture;
/// `None` where the encoder refuses the picture.
pub uninterp spec fn encoded_bytes(picture: Picture, format: Format) -> Option<Seq<u8>>;

/// Calls `DynamicImage::write_to` on a buffer in memory. Whether the encoder
/// accepts the picture, and the bytes it writes, depend on the picture and
/// the format alone; the contract gives the bytes a name.
#[verifier::external_body]
fn write_to(picture: &Picture, format: Format) -> (r: Result<Vec<u8>, image::ImageError>)
    requires
        picture.width > 0,
        picture.height > 0,
    ensures
        r is Ok <==> encoded_bytes(*picture, format) is Some,
        r matches Ok(bytes) ==> encoded_bytes(*picture, format) == Some(bytes@),
{
    let outside = match format {
        Format::Png => image::ImageFormat::Png,
        Format::Jpeg => image::ImageFormat::Jpeg,
        Format::Gif => image::ImageFormat::Gif,
        Format::WebP => image::ImageFormat::WebP,
        Format::Bmp => image::ImageFormat::Bmp,
    };
    let mut writer = std::io::Cursor::new(Vec::new());
    picture.pixels.write_to(&mut writer, outside)?;
    Ok(writer.into_inner())
}

/// The media type of the files of the formats handled here, by their
/// extensions in lower case.
pub open spec fn listed_media_type(ext: Seq<char>) -> Option<Seq<char>> {
    if ext == "jpg"@ || ext == "jpeg"@ {
        Some("image/jpeg"@)
    } else if ext == "png"@ {
        Some("image/png"@)
    } else if ext == "gif"@ {
        Some("image/gif"@)
    } else if ext == "webp"@ {
        Some("image/webp"@)
    } else if ext == "bmp"@ {
        Some("image/bmp"@)
    } else {
        None
    }
}

/// The media type that is guessed for any other file extension.
pub uninterp spec fn guessed_media_type(ext: Seq<char>) -> Seq<char>;

/// The media type that goes with a file extension.
pub open spec fn media_type(ext: Seq<char>) -> Seq<char> {
    match listed_media_type(ext) {
        Some(listed) => listed,
        None => guessed_media_type(ext),
    }
}

/// Calls `mime_guess::from_ext` and, on the guess, `first_or_octet_stream`:
/// the first media type listed for the extension, or
/// `application/octet-stream` where none is. The guess is looked up in a
/// table that is fixed for a given version of the crate, so the text depends
/// on the extension alone. The contract repeats the table's entries for the
/// six extensions of the formats handled here and gives the text for any
/// other extension a name.
#[verifier::external_body]
fn from_ext(ext: &str) -> (mime: String)
    ensures
        mime@ == match listed_media_type(ext@) {
            Some(listed) => listed,
            None => guessed_media_type(ext@),
        },
{
    mime_guess::from_ext(ext).first_or_octet_stream().to_string()
}

impl Format {
    /// The format that a buffer announces by its leading bytes.
    pub fn sniff(bytes: &[u8]) -> (format: Option<Format>)
        ensures
            format == sniffed_format(bytes@),
    {
        guess_format(bytes)
    }

    /// The format that a file extension stands for.
    pub fn of_extension(ext: &str) -> (format: Option<Format>)
        ensures
            format == format_of_extension(ext@),
    {
        from_extension(ext)
    }

    /// The file extensions of the format, the preferred one first.
    pub fn extension_list(self) -> (list: Vec<String>)
        ensures
            texts(list@) == extensions(self),
    {
        extensions_str(self)
    }

    /// The media type of the files of the format.
    pub open spec fn spec_media_type(self) -> Seq<char> {
        match self {
            Format::Png => "image/png"@,
            Format::Jpeg => "image/jpeg"@,
            Format::Gif => "image/gif"@,
            Format::WebP => "image/webp"@,
            Format::Bmp => "image/bmp"@,
        }
    }

    /// The preferred file extension of the format.
    pub open spec fn spec_extension(self) -> Seq<char> {
        extensions(self)[0]
    }

    /// The preferred file extension of the format.
    pub fn extension(self) -> (ext: String)
        ensures
            ext@ == self.spec_extension(),
    {
        let list = extensions_str(self);
        assert(texts(list@).len() == list@.len());
        assert(texts(list@)[0] == list@[0]@);
        list[0].clone()
    }
}

/// The media type served for files with the given extension.
pub fn content_type(ext: &str) -> (mime: String)
    ensures
        mime@ == media_type(ext@),
{
    from_ext(ext)
}

/// The height that keeps the proportions of a `width` by `height` image when
/// its width becomes `new_width`, rounded down.
pub open spec fn target_height(width: u32, height: u32, new_width: u32) -> int {
    (height as int * new_width as int) / (width as int)
}

/// Whether an image of the given size can be brought to `new_width` without
/// enlarging it and without ending up empty.
pub open spec fn can_resize(width: u32, height: u32, new_width: u32) -> bool {
    0 < new_width <= width && 0 < target_height(width, height, new_width)
}

proof fn lemma_target_height_bounds(width: u32, height: u32, new_width: u32)
    requires
        0 < new_width <= width,
    ensures
        0 <= target_height(width, height, new_width) <= height,
{
    let h = height as int;
    let n = new_width as int;
    let w = width as int;
    assert(h * n <= h * w) by (nonlinear_arith)
        requires
            0 <= h,
            0 <= n <= w,
    ;
    assert(0 <= h * n) by (nonlinear_arith)
        requires
            0 <= h,
            0 <= n,
    ;
    assert((h * n) / w <= h) by (nonlinear_arith)
        requires
            0 < w,
            0 <= h * n <= h * w,
    ;
    assert(0 <= (h * n) / w) by (nonlinear_arith)
        requires
            0 < w,
            0 <= h * n,
    ;
}

impl Picture {
    /// The width in pixels.
    pub closed spec fn spec_width(&self) -> u32 {
        self.width
    }

    /// The height in pixels.
    pub closed spec fn spec_height(&self) -> u32 {
        self.height
    }

    /// The width in pixels.
    #[verifier::when_used_as_spec(spec_width)]
    pub fn width(&self) -> (w: u32)
        ensures
            w == self.spec_width(),
    {
        self.width
    }

    /// The height in pixels.
    #[verifier::when_used_as_spec(spec_height)]
    pub fn height(&self) -> (h: u32)
        ensures
            h == self.spec_height(),
    {
        self.height
    }

    /// Decodes a file of the given format. Fails with a `DecodeError` exactly
    /// where the decoder refuses the file; otherwise the picture has the size
    /// that the file decodes to.
    pub fn decode(bytes: &[u8], format: Format) -> (r: Result<Picture, Error>)
        ensures
            match r {
                Ok(picture) => decoded_size(bytes@, format) == Some(
                    (picture.width(), picture.height()),
                ),
                Err(e) => decoded_size(bytes@, format) is None && e is DecodeError,
            },
    {
        match load_from_memory_with_format(bytes, format) {
            Ok(picture) => Ok(picture),
            Err(_) => Err(Error::decode("Cannot decode image")),
        }
    }

    /// The file that encoding the picture gives: none for an empty picture,
    /// and otherwise what the encoder writes.
    pub open spec fn spec_encode(self, format: Format) -> Option<Seq<u8>> {
        if self.spec_width() == 0 || self.spec_height() == 0 {
            None
        } else {
            encoded_bytes(self, format)
        }
    }

    /// Encodes the picture in the given format. An empty picture is refused
    /// without asking the encoder; otherwise the result is the encoder's,
    /// and its refusal a `DecodeError`.
    pub fn encode(&self, format: Format) -> (r: Result<Vec<u8>, Error>)
        ensures
            match r {
                Ok(bytes) => self.spec_encode(format) == Some(bytes@),
                Err(e) => self.spec_encode(format) is None && e is DecodeError,
            },
    {
        if self.width == 0 || self.height == 0 {
            return Err(Error::decode("Cannot encode an empty image"));
        }
        match write_to(self, format) {
            Ok(bytes) => Ok(bytes),
            Err(_) => Err(Error::decode("Cannot encode image")),
        }
    }
}

/// Brings a picture to the width `new_width` and keeps its proportions: the
/// new height is `height * new_width / width`, rounded down. A picture is
/// never enlarged, and never shrunk to nothing: in both cases, and for an
/// empty picture, the result is a `DecodeError`.
pub fn resize(image: &Picture, new_width: u32) -> (r: Result<Picture, Error>)
    ensures
        r is Ok <==> can_resize(image.width(), image.height(), new_width),
        r matches Ok(p) ==> p.width() == new_width && p.height() == target_height(
            image.width(),
            image.height(),
            new_width,
        ),
        r matches Err(e) ==> e is DecodeError,
{
    let width = image.width();
    let height = image.height();
    if new_width == 0 || new_width > width {
        return Err(Error::decode("Cannot resize to this width"));
    }
    proof {
        lemma_target_height_bounds(width, height, new_width);
        assert(height as int * new_width as int <= u32::MAX as int * u32::MAX as int)
            by (nonlinear_arith)
            requires
                0 <= height as int <= u32::MAX as int,
                0 <= new_width as int <= u32::MAX as int,
        ;
    }
    let scaled: u64 = (height as u64) * (new_width as u64) / (width as u64);
    let new_height: u32 = scaled as u32;
    if new_height == 0 {
        return Err(Error::decode("Cannot resize to an empty image"));
    }
    Ok(resample(image, new_width, new_height))
}

/// Whether `small` has the size of a `width` by `height` picture brought to
/// the width `new_width`.
pub open spec fn fits(small: Picture, width: u32, height: u32, new_width: u32) -> bool {
    small.spec_width() == new_width && small.spec_height() == target_height(
        width,
        height,
        new_width,
    )
}

/// Makes the variant of the given width from an encoded image: decodes it
/// and brings it to the width, keeping its proportions. Fails with a
/// `DecodeError` exactly where the decoder refuses the file or the picture
/// cannot be brought to the width.
pub fn derivative(original: &[u8], format: Format, width: u32) -> (r: Result<Picture, Error>)
    ensures
        match decoded_size(original@, format) {
            Some((w, h)) => match r {
                Ok(small) => can_resize(w, h, width) && fits(small, w, h, width),
                Err(e) => !can_resize(w, h, width) && e is DecodeError,
            },
            None => r matches Err(e) && e is DecodeError,
        },
{
    match Picture::decode(original, format) {
        Ok(picture) => resize(&picture, width),
        Err(e) => Err(e),
    }
}

/// Each extension of a format leads back to the format.
pub proof fn lemma_extension_leads_back(format: Format, k: int)
    requires
        0 <= k < extensions(format).len(),
    ensures
        format_of_extension(extensions(format)[k]) == Some(format),
{
    reveal_strlit("png");
    reveal_strlit("jpg");
    reveal_strlit("jpeg");
    reveal_strlit("gif");
    reveal_strlit("webp");
    reveal_strlit("bmp");
    let ext = extensions(format)[k];
    let lower = ext.map_values(|c: char| ascii_lower(c));
    assert(lower =~= ext);
    let jpg = "jpg"@;
    let jpeg = "jpeg"@;
    let png = "png"@;
    let gif = "gif"@;
    let webp = "webp"@;
    assert(jpg[0] == 'j' && jpeg[0] == 'j' && png[0] == 'p' && gif[0] == 'g' && webp[0] == 'w');
    assert(ext[0] == 'j' || ext[0] == 'p' || ext[0] == 'g' || ext[0] == 'w' || ext[0] == 'b');
}

/// Files with an extension of a format are served under the media type of
/// the format.
pub proof fn lemma_media_type_of_extension(format: Format, k: int)
    requires
        0 <= k < extensions(format).len(),
    ensures
        media_type(extensions(format)[k]) == format.spec_media_type(),
{
    reveal_strlit("png");
    reveal_strlit("jpg");
    reveal_strlit("jpeg");
    reveal_strlit("gif");
    reveal_strlit("webp");
    reveal_strlit("bmp");
    let ext = extensions(format)[k];
    let jpg = "jpg"@;
    let jpeg = "jpeg"@;
    let png = "png"@;
    let gif = "gif"@;
    let webp = "webp"@;
    assert(jpg[0] == 'j' && jpeg[0] == 'j' && png[0] == 'p' && gif[0] == 'g' && webp[0] == 'w');
    assert(ext[0] == 'j' || ext[0] == 'p' || ext[0] == 'g' || ext[0] == 'w' || ext[0] == 'b');
}

} // verus!
