use edge_images::codec::Format;
use edge_images::util::{content_hash, get_filename_and_ext, get_hash, logical_key, stored_name};

#[test]
fn get_hash_is_sha1_in_hex() {
    assert_eq!(get_hash(b"").unwrap(), "da39a3ee5e6b4b0d3255bfef95601890afd80709");
    assert_eq!(get_hash(b"abc").unwrap(), "a9993e364706816aba3e25717850c26c9cd0d89d");
    assert_eq!(get_hash(b"hello world").unwrap(), "2aae6c35c94fcfb415dbe95f408b9ce91ee846ed");
}

#[test]
fn content_hash_has_forty_characters() {
    assert_eq!(content_hash(&[0u8; 1000]).len(), 40);
    assert_eq!(content_hash(b"abc"), get_hash(b"abc").unwrap());
}

#[test]
fn logical_key_joins_scope_and_file_name() {
    assert_eq!(logical_key("photos", "cat.jpg"), "photos/cat.jpg");
    assert_eq!(logical_key("", "cat.jpg"), "/cat.jpg");
    assert_eq!(logical_key("a/b", ""), "a/b/");
}

#[test]
fn the_extension_is_taken_off_the_name() {
    let (name, ext) = get_filename_and_ext("photos", "cat.jpg", Format::Jpeg).unwrap();
    assert_eq!((name.as_str(), ext.as_str()), ("photos/cat", "jpg"));
    let (name, ext) = get_filename_and_ext("photos", "cat.jpeg", Format::Jpeg).unwrap();
    assert_eq!((name.as_str(), ext.as_str()), ("photos/cat", "jpeg"));
    let (name, ext) = get_filename_and_ext("p", "a.b.png", Format::Png).unwrap();
    assert_eq!((name.as_str(), ext.as_str()), ("p/a.b", "png"));
}

#[test]
fn a_name_without_the_format_s_extension_is_kept_whole() {
    let (name, ext) = get_filename_and_ext("photos", "cat", Format::Jpeg).unwrap();
    assert_eq!((name.as_str(), ext.as_str()), ("photos/cat", "jpg"));
    let (name, ext) = get_filename_and_ext("photos", "cat.png", Format::Jpeg).unwrap();
    assert_eq!((name.as_str(), ext.as_str()), ("photos/cat.png", "jpg"));
    let (name, ext) = get_filename_and_ext("photos", "cat.JPG", Format::Jpeg).unwrap();
    assert_eq!((name.as_str(), ext.as_str()), ("photos/cat.JPG", "jpg"));
}

#[test]
fn an_extension_counts_only_after_a_dot() {
    let (name, ext) = get_filename_and_ext("s", "catjpg", Format::Jpeg).unwrap();
    assert_eq!((name.as_str(), ext.as_str()), ("s/catjpg", "jpg"));
    let (name, ext) = get_filename_and_ext("s", "jpg", Format::Jpeg).unwrap();
    assert_eq!((name.as_str(), ext.as_str()), ("s/jpg", "jpg"));
    let (name, ext) = get_filename_and_ext("s", "caf\u{e9}png", Format::Png).unwrap();
    assert_eq!((name.as_str(), ext.as_str()), ("s/caf\u{e9}png", "png"));
    let (name, ext) = get_filename_and_ext("s", ".jpg", Format::Jpeg).unwrap();
    assert_eq!((name.as_str(), ext.as_str()), ("s/", "jpg"));
    let (name, ext) = get_filename_and_ext("s", "caf\u{e9}.png", Format::Png).unwrap();
    assert_eq!((name.as_str(), ext.as_str()), ("s/caf\u{e9}", "png"));
}

#[test]
fn names_that_differ_are_stored_under_names_that_differ() {
    let (first, _) = get_filename_and_ext("s", "catjpg", Format::Jpeg).unwrap();
    let (second, _) = get_filename_and_ext("s", "ca.jpg", Format::Jpeg).unwrap();
    assert_eq!((first.as_str(), second.as_str()), ("s/catjpg", "s/ca"));
}

#[test]
fn stored_name_is_the_same_without_the_result() {
    assert_eq!(
        stored_name("photos", "cat.gif", Format::Gif),
        get_filename_and_ext("photos", "cat.gif", Format::Gif).unwrap()
    );
}
