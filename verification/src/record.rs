//! The metadata kept for each image, and the choice of what to serve for a
//! requested width.

use vstd::prelude::*;
use vstd::string::*;

verus! {

/// What is known of an ingested image: where its original lives, how wide
/// it is, and which narrower variants have been stored beside it.
#[derive(Clone, Debug, PartialEq, Eq)]
pub struct StoredImage {
    pub id: String,
    pub name: String,
    pub format: String,
    pub width: u32,
    pub variants: Vec<u32>,
}

/// A record, as values of mathematics.
pub struct StoredImageView {
    pub id: Seq<char>,
    pub name: Seq<char>,
    pub format: Seq<char>,
    pub width: u32,
    pub variants: Seq<u32>,
}

impl View for StoredImage {
    type V = StoredImageView;

    open spec fn view(&self) -> StoredImageView {
        StoredImageView {
            id: self.id@,
            name: self.name@,
            format: self.format@,
            width: self.width,
            variants: self.variants@,
        }
    }
}

/// Every one of the widths is below `width`, and none occurs twice.
pub open spec fn distinct_below(widths: Seq<u32>, width: u32) -> bool {
    &&& forall|i: int| 0 <= i < widths.len() ==> widths[i] < width
    &&& widths.no_duplicates()
}

impl StoredImageView {
    /// Every variant is narrower than the original, and none is listed
    /// twice.
    pub open spec fn well_formed(self) -> bool {
        distinct_below(self.variants, self.width)
    }

    /// The record after a variant of the given width has been stored. A
    /// width that is listed already, or that is not below the original's,
    /// leaves the record as it is.
    pub open spec fn with_variant(self, width: u32) -> StoredImageView {
        if width < self.width && !self.variants.contains(width) {
            StoredImageView { variants: self.variants.push(width), ..self }
        } else {
            self
        }
    }
}

impl StoredImage {
    /// Every variant is narrower than the original, and none is listed
    /// twice.
    pub open spec fn well_formed(&self) -> bool {
        self@.well_formed()
    }

    /// Whether the record is well formed.
    pub fn check(&self) -> (ok: bool)
        ensures
            ok == self.well_formed(),
    {
        let mut i: usize = 0;
        while i < self.variants.len()
            invariant
                i <= self.variants.len(),
                forall|k: int| 0 <= k < i ==> self.variants@[k] < self.width,
                self.variants@.subrange(0, i as int).no_duplicates(),
            decreases self.variants.len() - i,
        {
            let w = self.variants[i];
            if w >= self.width {
                return false;
            }
            let mut j: usize = 0;
            while j < i
                invariant
                    j <= i,
                    i < self.variants.len(),
                    w == self.variants@[i as int],
                    forall|k: int| 0 <= k < j ==> self.variants@[k] != w,
                decreases i - j,
            {
                if self.variants[j] == w {
                    return false;
                }
                j = j + 1;
            }
            proof {
                let before = self.variants@.subrange(0, i as int);
                let after = self.variants@.subrange(0, i as int + 1);
                assert forall|a: int, b: int| 0 <= a < after.len() && 0 <= b < after.len() && a != b
                    implies after[a] != after[b] by {
                    if a < i && b < i {
                        assert(before[a] != before[b]);
                    }
                }
            }
            i = i + 1;
        }
        assert(self.variants@.subrange(0, i as int) =~= self.variants@);
        true
    }

    /// Whether a variant of the given width has been stored.
    pub fn has_variant(&self, width: u32) -> (found: bool)
        ensures
            found == self@.variants.contains(width),
    {
        let mut i: usize = 0;
        while i < self.variants.len()
            invariant
                i <= self.variants.len(),
                forall|k: int| 0 <= k < i ==> self.variants@[k] != width,
            decreases self.variants.len() - i,
        {
            if self.variants[i] == width {
                return true;
            }
            i = i + 1;
        }
        false
    }

    /// Notes that a variant of the given width has been stored, and tells
    /// whether that changed the record. Noting a width twice changes nothing
    /// the second time, and a width that is not below the original's is
    /// never listed.
    pub fn add_variant(&mut self, width: u32) -> (changed: bool)
        ensures
            final(self)@ == old(self)@.with_variant(width),
            changed == (width < old(self).width && !old(self)@.variants.contains(width)),
            old(self).well_formed() ==> final(self).well_formed(),
    {
        if width < self.width && !self.has_variant(width) {
            self.variants.push(width);
            proof {
                if old(self).well_formed() {
                    lemma_with_variant_keeps_form(old(self)@, width);
                }
            }
            true
        } else {
            false
        }
    }

    /// A copy with the same content.
    pub fn duplicate(&self) -> (copy: StoredImage)
        ensures
            copy@ == self@,
    {
        StoredImage {
            id: self.id.clone(),
            name: self.name.clone(),
            format: self.format.clone(),
            width: self.width,
            variants: self.variants.clone(),
        }
    }
}

/// A well-formed record stays well formed when a variant is noted.
pub proof fn lemma_with_variant_keeps_form(record: StoredImageView, width: u32)
    requires
        record.well_formed(),
    ensures
        record.with_variant(width).well_formed(),
{
    let after = record.with_variant(width);
    if width < record.width && !record.variants.contains(width) {
        assert forall|a: int, b: int|
            0 <= a < after.variants.len() && 0 <= b < after.variants.len() && a != b implies after.variants[a]
            != after.variants[b] by {
            if a < record.variants.len() && b < record.variants.len() {
                assert(record.variants[a] != record.variants[b]);
            } else if a < record.variants.len() {
                assert(record.variants.contains(record.variants[a]));
            } else {
                assert(record.variants.contains(record.variants[b]));
            }
        }
    }
}

/// What to serve for a requested width.
#[derive(Clone, Copy, Debug, PartialEq, Eq, Structural)]
pub enum Resolution {
    /// The stored original, as it is.
    Original,
    /// The stored variant of this width, as it is.
    Variant(u32),
    /// A variant of this width that has yet to be made.
    Synthesize(u32),
}

/// The choice of what to serve: the original where no width is asked for or
/// the original is no wider than asked; a stored variant where there is one
/// of that width; and otherwise a new variant.
pub open spec fn spec_resolve(record: StoredImageView, requested: Option<u32>) -> Resolution {
    match requested {
        None => Resolution::Original,
        Some(w) => if record.width <= w {
            Resolution::Original
        } else if record.variants.contains(w) {
            Resolution::Variant(w)
        } else {
            Resolution::Synthesize(w)
        },
    }
}

/// Decides what to serve for a requested width.
pub fn resolve(record: &StoredImage, requested: Option<u32>) -> (choice: Resolution)
    ensures
        choice == spec_resolve(record@, requested),
{
    match requested {
        None => Resolution::Original,
        Some(w) => if record.width <= w {
            Resolution::Original
        } else if record.has_variant(w) {
            Resolution::Variant(w)
        } else {
            Resolution::Synthesize(w)
        },
    }
}

/// The widths that are made for every image at upload, narrowest first.
pub open spec fn spec_standard_widths() -> Seq<u32> {
    seq![320u32, 640u32, 1280u32, 1920u32]
}

/// The standard widths that are below the width of an original.
pub open spec fn spec_ladder(width: u32) -> Seq<u32> {
    spec_standard_widths().filter(|w: u32| w < width)
}

/// Whatever is kept of a list by a filter was in the list.
proof fn lemma_filter_within(list: Seq<u32>, keep: spec_fn(u32) -> bool, w: u32)
    requires
        list.filter(keep).contains(w),
    ensures
        list.contains(w),
        keep(w),
    decreases list.len(),
{
    reveal(Seq::filter);
    if list.len() > 0 {
        let rest = list.drop_last().filter(keep);
        if rest.contains(w) {
            lemma_filter_within(list.drop_last(), keep, w);
            let i = choose|i: int| 0 <= i < list.drop_last().len() && list.drop_last()[i] == w;
            assert(list[i] == w);
        } else {
            let i = choose|i: int| 0 <= i < list.filter(keep).len() && list.filter(keep)[i] == w;
            assert(keep(list.last()));
            if i < rest.len() {
                assert(rest[i] == w);
                assert(rest.contains(w));
            }
            assert(list[list.len() - 1] == w);
        }
    }
}

/// A filter keeps a list free of repetitions.
proof fn lemma_filter_distinct(list: Seq<u32>, keep: spec_fn(u32) -> bool)
    requires
        list.no_duplicates(),
    ensures
        list.filter(keep).no_duplicates(),
    decreases list.len(),
{
    reveal(Seq::filter);
    if list.len() > 0 {
        let front = list.drop_last();
        let rest = front.filter(keep);
        lemma_filter_distinct(front, keep);
        if keep(list.last()) {
            let all = rest.push(list.last());
            assert forall|a: int, b: int| 0 <= a < all.len() && 0 <= b < all.len() && a != b implies all[a]
                != all[b] by {
                if a < rest.len() && b < rest.len() {
                } else {
                    let inner = if a < rest.len() {
                        a
                    } else {
                        b
                    };
                    if rest[inner] == list.last() {
                        assert(rest.contains(list.last()));
                        lemma_filter_within(front, keep, list.last());
                        let k = choose|k: int| 0 <= k < front.len() && front[k] == list.last();
                        assert(list[k] == list[list.len() - 1]);
                    }
                }
            }
        }
    }
}

/// The widths made for an image at upload are below its width, and no two
/// are the same.
pub proof fn lemma_ladder_distinct_below(width: u32)
    ensures
        distinct_below(spec_ladder(width), width),
{
    let keep = |w: u32| w < width;
    let list = spec_standard_widths();
    assert(list.no_duplicates());
    lemma_filter_distinct(list, keep);
    assert forall|i: int| 0 <= i < list.filter(keep).len() implies list.filter(keep)[i] < width by {
        assert(list.filter(keep).contains(list.filter(keep)[i]));
        lemma_filter_within(list, keep, list.filter(keep)[i]);
    }
}

/// The ladder, width by width: each standard width belongs to it from the
/// first width above it.
pub proof fn lemma_ladder_steps(width: u32)
    ensures
        spec_ladder(width) == if width <= 320 {
            Seq::<u32>::empty()
        } else if width <= 640 {
            seq![320u32]
        } else if width <= 1280 {
            seq![320u32, 640u32]
        } else if width <= 1920 {
            seq![320u32, 640u32, 1280u32]
        } else {
            seq![320u32, 640u32, 1280u32, 1920u32]
        },
{
    let keep = |w: u32| w < width;
    let s4 = spec_standard_widths();
    let s3 = s4.drop_last();
    let s2 = s3.drop_last();
    let s1 = s2.drop_last();
    let s0 = s1.drop_last();
    reveal(Seq::filter);
    assert(s0.filter(keep) =~= Seq::<u32>::empty());
    assert(s1.filter(keep) =~= if width <= 320 { Seq::<u32>::empty() } else { seq![320u32] });
    assert(s2.filter(keep) =~= if width <= 320 { Seq::<u32>::empty() } else if width <= 640 { seq![320u32] } else { seq![320u32, 640u32] });
    assert(s3.filter(keep) =~= if width <= 320 { Seq::<u32>::empty() } else if width <= 640 { seq![320u32] } else if width <= 1280 { seq![320u32, 640u32] } else { seq![320u32, 640u32, 1280u32] });
    assert(s4.filter(keep) =~= if width <= 320 {
            Seq::<u32>::empty()
        } else if width <= 640 {
            seq![320u32]
        } else if width <= 1280 {
            seq![320u32, 640u32]
        } else if width <= 1920 {
            seq![320u32, 640u32, 1280u32]
        } else {
            seq![320u32, 640u32, 1280u32, 1920u32]
        });
}

/// The widths that are made for every image at upload, narrowest first.
pub fn standard_widths() -> (widths: Vec<u32>)
    ensures
        widths@ == spec_standard_widths(),
{
    let mut widths: Vec<u32> = Vec::new();
    widths.push(320);
    widths.push(640);
    widths.push(1280);
    widths.push(1920);
    assert(widths@ =~= spec_standard_widths());
    widths
}

/// Keeps the candidates that are below `width`, in their order.
pub fn widths_below(candidates: &Vec<u32>, width: u32) -> (kept: Vec<u32>)
    ensures
        kept@ == candidates@.filter(|w: u32| w < width),
{
    let mut kept: Vec<u32> = Vec::new();
    let mut i: usize = 0;
    proof {
        assert(candidates@.subrange(0, 0) =~= Seq::<u32>::empty());
        reveal(Seq::filter);
    }
    while i < candidates.len()
        invariant
            i <= candidates.len(),
            kept@ == candidates@.subrange(0, i as int).filter(|w: u32| w < width),
        decreases candidates.len() - i,
    {
        let w = candidates[i];
        proof {
            let next = candidates@.subrange(0, i as int + 1);
            assert(next.drop_last() =~= candidates@.subrange(0, i as int));
            assert(next.last() == w);
            reveal(Seq::filter);
        }
        if w < width {
            kept.push(w);
        }
        i = i + 1;
    }
    assert(candidates@.subrange(0, i as int) =~= candidates@);
    kept
}

/// The standard widths that are below the width of an original: the
/// variants made for it at upload.
pub fn ladder(width: u32) -> (widths: Vec<u32>)
    ensures
        widths@ == spec_ladder(width),
{
    let all = standard_widths();
    widths_below(&all, width)
}

} // verus!
