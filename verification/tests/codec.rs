use std::io::Cursor;

use edge_images::codec::{content_type, derivative, resize, Format, Picture};
use edge_images::error::Error;

fn encoded(width: u32, height: u32, format: image::ImageFormat) -> Vec<u8> {
    let mut pixels = image::RgbImage::new(width, height);
    for (x, y, p) in pixels.enumerate_pixels_mut() {
        *p = image::Rgb([(x % 256) as u8, (y % 256) as u8, ((x + y) % 256) as u8]);
    }
    let mut out = Cursor::new(Vec::new());
    image::DynamicImage::ImageRgb8(pixels).write_to(&mut out, format).unwrap();
    out.into_inner()
}

#[test]
fn sniff_knows_the_five_formats() {
    assert_eq!(Format::sniff(&encoded(4, 4, image::ImageFormat::Png)), Some(Format::Png));
    assert_eq!(Format::sniff(&encoded(4, 4, image::ImageFormat::Jpeg)), Some(Format::Jpeg));
    assert_eq!(Format::sniff(&encoded(4, 4, image::ImageFormat::Gif)), Some(Format::Gif));
    assert_eq!(Format::sniff(&encoded(4, 4, image::ImageFormat::Bmp)), Some(Format::Bmp));
    assert_eq!(Format::sniff(b"RIFF\x00\x00\x00\x00WEBP"), Some(Format::WebP));
}

#[test]
fn sniff_goes_by_the_leading_bytes_alone() {
    assert_eq!(Format::sniff(&[0x89, b'P', b'N', b'G', 0x0d, 0x0a, 0x1a, 0x0a]), Some(Format::Png));
    assert_eq!(Format::sniff(&[0x89, b'P', b'N', b'G', 0x0d, 0x0a, 0x1a]), None);
    assert_eq!(Format::sniff(&[0xff, 0xd8, 0xff]), Some(Format::Jpeg));
    assert_eq!(Format::sniff(&[0xff, 0xd8]), None);
    assert_eq!(Format::sniff(b"GIF89a"), Some(Format::Gif));
    assert_eq!(Format::sniff(b"GIF87a"), Some(Format::Gif));
    assert_eq!(Format::sniff(b"GIF88a"), None);
    assert_eq!(Format::sniff(b"BM"), Some(Format::Bmp));
    assert_eq!(Format::sniff(b"B"), None);
    assert_eq!(Format::sniff(b""), None);
    assert_eq!(Format::sniff(b"hello world"), None);
}

#[test]
fn sniff_leaves_out_formats_that_are_not_handled() {
    assert_eq!(Format::sniff(b"II*\x00rest"), None);
    assert_eq!(Format::sniff(b"MM\x00*rest"), None);
    assert_eq!(Format::sniff(b"qoifrest"), None);
    assert_eq!(Format::sniff(b"DDS rest"), None);
    assert_eq!(Format::sniff(&[0, 0, 1, 0, 1]), None);
}

#[test]
fn of_extension_ignores_case() {
    assert_eq!(Format::of_extension("jpg"), Some(Format::Jpeg));
    assert_eq!(Format::of_extension("jpeg"), Some(Format::Jpeg));
    assert_eq!(Format::of_extension("JPG"), Some(Format::Jpeg));
    assert_eq!(Format::of_extension("JpEg"), Some(Format::Jpeg));
    assert_eq!(Format::of_extension("png"), Some(Format::Png));
    assert_eq!(Format::of_extension("PNG"), Some(Format::Png));
    assert_eq!(Format::of_extension("gif"), Some(Format::Gif));
    assert_eq!(Format::of_extension("webp"), Some(Format::WebP));
    assert_eq!(Format::of_extension("bmp"), Some(Format::Bmp));
}

#[test]
fn of_extension_refuses_the_rest() {
    assert_eq!(Format::of_extension(""), None);
    assert_eq!(Format::of_extension(".jpg"), None);
    assert_eq!(Format::of_extension("jpg "), None);
    assert_eq!(Format::of_extension("tiff"), None);
    assert_eq!(Format::of_extension("tif"), None);
    assert_eq!(Format::of_extension("ico"), None);
    assert_eq!(Format::of_extension("exe"), None);
    assert_eq!(Format::of_extension("jp\u{e9}g"), None);
}

#[test]
fn extension_lists() {
    assert_eq!(Format::Png.extension_list(), vec!["png"]);
    assert_eq!(Format::Jpeg.extension_list(), vec!["jpg", "jpeg"]);
    assert_eq!(Format::Gif.extension_list(), vec!["gif"]);
    assert_eq!(Format::WebP.extension_list(), vec!["webp"]);
    assert_eq!(Format::Bmp.extension_list(), vec!["bmp"]);
}

#[test]
fn every_preferred_extension_leads_back_to_its_format() {
    for format in [Format::Png, Format::Jpeg, Format::Gif, Format::WebP, Format::Bmp] {
        assert_eq!(Format::of_extension(&format.extension()), Some(format));
        for ext in format.extension_list() {
            assert_eq!(Format::of_extension(&ext), Some(format));
        }
    }
    assert_eq!(Format::Jpeg.extension(), "jpg");
}

#[test]
fn content_types() {
    assert_eq!(content_type("jpg"), "image/jpeg");
    assert_eq!(content_type("jpeg"), "image/jpeg");
    assert_eq!(content_type("png"), "image/png");
    assert_eq!(content_type("gif"), "image/gif");
    assert_eq!(content_type("webp"), "image/webp");
    assert_eq!(content_type("bmp"), "image/bmp");
    assert_eq!(content_type(""), "application/octet-stream");
    assert_eq!(content_type("no-such-extension"), "application/octet-stream");
}

#[test]
fn decode_reports_the_size() {
    let picture = Picture::decode(&encoded(30, 20, image::ImageFormat::Png), Format::Png).unwrap();
    assert_eq!((picture.width(), picture.height()), (30, 20));
    let picture = Picture::decode(&encoded(17, 5, image::ImageFormat::Jpeg), Format::Jpeg).unwrap();
    assert_eq!((picture.width(), picture.height()), (17, 5));
}

#[test]
fn decode_refuses_what_is_no_image() {
    assert!(matches!(Picture::decode(b"not an image", Format::Png), Err(Error::DecodeError(_))));
    assert!(matches!(Picture::decode(b"", Format::Jpeg), Err(Error::DecodeError(_))));
    let png = encoded(8, 8, image::ImageFormat::Png);
    assert!(matches!(Picture::decode(&png, Format::Jpeg), Err(Error::DecodeError(_))));
    assert!(matches!(Picture::decode(&png[..20], Format::Png), Err(Error::DecodeError(_))));
}

#[test]
fn resize_keeps_the_proportions() {
    let picture = Picture::decode(&encoded(200, 100, image::ImageFormat::Png), Format::Png).unwrap();
    let small = resize(&picture, 50).unwrap();
    assert_eq!((small.width(), small.height()), (50, 25));
    let same = resize(&picture, 200).unwrap();
    assert_eq!((same.width(), same.height()), (200, 100));
}

#[test]
fn resize_rounds_the_height_down() {
    let picture = Picture::decode(&encoded(300, 200, image::ImageFormat::Png), Format::Png).unwrap();
    let small = resize(&picture, 100).unwrap();
    assert_eq!((small.width(), small.height()), (100, 66));
    let small = resize(&picture, 7).unwrap();
    assert_eq!((small.width(), small.height()), (7, 4));
    let small = resize(&picture, 299).unwrap();
    assert_eq!((small.width(), small.height()), (299, 199));
}

#[test]
fn resize_does_not_enlarge() {
    let picture = Picture::decode(&encoded(20, 10, image::ImageFormat::Png), Format::Png).unwrap();
    assert!(matches!(resize(&picture, 21), Err(Error::DecodeError(_))));
    assert!(matches!(resize(&picture, u32::MAX), Err(Error::DecodeError(_))));
}

#[test]
fn resize_does_not_shrink_to_nothing() {
    let picture = Picture::decode(&encoded(20, 10, image::ImageFormat::Png), Format::Png).unwrap();
    assert!(matches!(resize(&picture, 0), Err(Error::DecodeError(_))));
    assert!(matches!(resize(&picture, 1), Err(Error::DecodeError(_))));
    let two = resize(&picture, 2).unwrap();
    assert_eq!((two.width(), two.height()), (2, 1));
}

#[test]
fn resize_really_resamples_the_pixels() {
    let picture = Picture::decode(&encoded(64, 32, image::ImageFormat::Png), Format::Png).unwrap();
    let small = resize(&picture, 16).unwrap();
    let bytes = small.encode(Format::Png).unwrap();
    let back = image::load_from_memory_with_format(&bytes, image::ImageFormat::Png).unwrap();
    assert_eq!((back.width(), back.height()), (16, 8));
}

#[test]
fn encode_writes_a_file_of_the_format() {
    let picture = Picture::decode(&encoded(12, 9, image::ImageFormat::Png), Format::Png).unwrap();
    for (format, outside) in [
        (Format::Png, image::ImageFormat::Png),
        (Format::Jpeg, image::ImageFormat::Jpeg),
        (Format::Gif, image::ImageFormat::Gif),
        (Format::Bmp, image::ImageFormat::Bmp),
    ] {
        let bytes = picture.encode(format).unwrap();
        assert_eq!(Format::sniff(&bytes), Some(format));
        let back = image::load_from_memory_with_format(&bytes, outside).unwrap();
        assert_eq!((back.width(), back.height()), (12, 9));
    }
}

#[test]
fn a_resized_jpeg_can_be_written_as_jpeg() {
    let picture = Picture::decode(&encoded(40, 20, image::ImageFormat::Jpeg), Format::Jpeg).unwrap();
    let small = resize(&picture, 10).unwrap();
    let bytes = small.encode(Format::Jpeg).unwrap();
    let back = Picture::decode(&bytes, Format::Jpeg).unwrap();
    assert_eq!((back.width(), back.height()), (10, 5));
}

#[test]
fn derivative_decodes_and_resizes() {
    let file = encoded(300, 200, image::ImageFormat::Png);
    let small = derivative(&file, Format::Png, 100).unwrap();
    assert_eq!((small.width(), small.height()), (100, 66));
    assert!(matches!(derivative(&file, Format::Png, 301), Err(Error::DecodeError(_))));
    assert!(matches!(derivative(&file, Format::Png, 0), Err(Error::DecodeError(_))));
    assert!(matches!(derivative(&file, Format::Jpeg, 100), Err(Error::DecodeError(_))));
    assert!(matches!(derivative(b"", Format::Png, 100), Err(Error::DecodeError(_))));
}

#[test]
fn a_gif_goes_through_decode_resize_and_encode() {
    let file = encoded(40, 30, image::ImageFormat::Gif);
    let small = derivative(&file, Format::Gif, 20).unwrap();
    let bytes = small.encode(Format::Gif).unwrap();
    let back = Picture::decode(&bytes, Format::Gif).unwrap();
    assert_eq!((back.width(), back.height()), (20, 15));
}
