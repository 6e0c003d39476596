use edge_images::record::{ladder, resolve, standard_widths, widths_below, Resolution, StoredImage};

fn record(width: u32, variants: &[u32]) -> StoredImage {
    StoredImage {
        id: "id-1".to_string(),
        name: "photos/cat".to_string(),
        format: "jpg".to_string(),
        width,
        variants: variants.to_vec(),
    }
}

#[test]
fn no_width_serves_the_original() {
    assert_eq!(resolve(&record(2000, &[320, 640]), None), Resolution::Original);
}

#[test]
fn an_image_is_never_enlarged() {
    let r = record(2000, &[320, 640]);
    assert_eq!(resolve(&r, Some(2000)), Resolution::Original);
    assert_eq!(resolve(&r, Some(2001)), Resolution::Original);
    assert_eq!(resolve(&r, Some(u32::MAX)), Resolution::Original);
}

#[test]
fn a_stored_width_is_a_hit() {
    let r = record(2000, &[320, 640]);
    assert_eq!(resolve(&r, Some(320)), Resolution::Variant(320));
    assert_eq!(resolve(&r, Some(640)), Resolution::Variant(640));
}

#[test]
fn any_other_width_is_made() {
    let r = record(2000, &[320, 640]);
    assert_eq!(resolve(&r, Some(500)), Resolution::Synthesize(500));
    assert_eq!(resolve(&r, Some(1999)), Resolution::Synthesize(1999));
    assert_eq!(resolve(&r, Some(0)), Resolution::Synthesize(0));
}

#[test]
fn the_original_s_width_wins_over_a_listed_one() {
    let r = record(300, &[320]);
    assert_eq!(resolve(&r, Some(320)), Resolution::Original);
}

#[test]
fn add_variant_appends_once() {
    let mut r = record(2000, &[320]);
    assert!(r.add_variant(500));
    assert_eq!(r.variants, vec![320, 500]);
    assert!(!r.add_variant(500));
    assert_eq!(r.variants, vec![320, 500]);
    assert!(r.check());
}

#[test]
fn add_variant_refuses_widths_not_below_the_original() {
    let mut r = record(2000, &[]);
    assert!(!r.add_variant(2000));
    assert!(!r.add_variant(2500));
    assert!(r.variants.is_empty());
    assert!(r.add_variant(1999));
    assert_eq!(r.variants, vec![1999]);
}

#[test]
fn add_variant_changes_nothing_else() {
    let mut r = record(2000, &[320]);
    r.add_variant(640);
    assert_eq!(r.id, "id-1");
    assert_eq!(r.name, "photos/cat");
    assert_eq!(r.format, "jpg");
    assert_eq!(r.width, 2000);
}

#[test]
fn a_variant_that_was_added_is_a_hit() {
    let mut r = record(2000, &[320]);
    assert_eq!(resolve(&r, Some(500)), Resolution::Synthesize(500));
    r.add_variant(500);
    assert_eq!(resolve(&r, Some(500)), Resolution::Variant(500));
}

#[test]
fn check_finds_repetitions_and_wide_variants() {
    assert!(record(2000, &[]).check());
    assert!(record(2000, &[1920, 320]).check());
    assert!(!record(2000, &[320, 320]).check());
    assert!(!record(2000, &[320, 640, 320]).check());
    assert!(!record(2000, &[2000]).check());
    assert!(!record(0, &[0]).check());
    assert!(record(0, &[]).check());
}

#[test]
fn has_variant_looks_the_width_up() {
    let r = record(2000, &[320, 640]);
    assert!(r.has_variant(640));
    assert!(!r.has_variant(641));
}

#[test]
fn the_standard_widths() {
    assert_eq!(standard_widths(), vec![320, 640, 1280, 1920]);
}

#[test]
fn the_ladder_holds_the_standard_widths_below_the_original() {
    assert_eq!(ladder(0), Vec::<u32>::new());
    assert_eq!(ladder(320), Vec::<u32>::new());
    assert_eq!(ladder(321), vec![320]);
    assert_eq!(ladder(640), vec![320]);
    assert_eq!(ladder(1000), vec![320, 640]);
    assert_eq!(ladder(1920), vec![320, 640, 1280]);
    assert_eq!(ladder(2000), vec![320, 640, 1280, 1920]);
    assert_eq!(ladder(u32::MAX), vec![320, 640, 1280, 1920]);
}

#[test]
fn widths_below_keeps_order_and_repetitions() {
    assert_eq!(widths_below(&vec![5, 1, 9, 1, 3], 4), vec![1, 1, 3]);
    assert_eq!(widths_below(&vec![], 4), Vec::<u32>::new());
    assert_eq!(widths_below(&vec![4, 5], 4), Vec::<u32>::new());
}

#[test]
fn duplicate_copies_every_field() {
    let r = record(2000, &[320, 640]);
    assert_eq!(r.duplicate(), r);
}
