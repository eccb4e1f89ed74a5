//! Deciding which photos of a collection are kept.

use crate::exif::{exif_field_text, get_exif_field, ExifTag};
use crate::text::{
    chars_of, contains, contains_exec, ends_with, ends_with_exec, lower_of, opt_chars, remove_ci,
    remove_ci_exec, to_lower, to_upper, upper_of,
};
use vstd::prelude::*;

verus! {

/// The file name markers of derived copies (edits, animations, collages, ...).
pub open spec fn derivative_markers() -> Seq<Seq<char>> {
    seq!["-MIX"@, "-EDITED"@, "-EFFECTS"@, "-ANIMATION"@, "-COLLAGE"@, "-SMILE"@, "-PANO"@]
}

/// Whether the upper-case text `upper` holds a derivative marker.
pub open spec fn holds_marker(upper: Seq<char>) -> bool {
    exists|k: int| 0 <= k < derivative_markers().len() && contains(upper, #[trigger] derivative_markers()[k])
}

/// Whether `name`, in upper case, holds a derivative marker.
pub open spec fn has_derivative_marker(name: Seq<char>) -> bool {
    holds_marker(upper_of(name))
}

/// Whether `name`, in upper case, ends with `.GIF`.
pub open spec fn is_gif_name(name: Seq<char>) -> bool {
    ends_with(upper_of(name), ".GIF"@)
}

/// `name` after the first `k` markers have been removed from it, one marker
/// after the other.
pub open spec fn strip_markers(name: Seq<char>, k: nat) -> Seq<char>
    decreases k,
{
    if k == 0 {
        name
    } else {
        remove_ci(strip_markers(name, (k - 1) as nat), derivative_markers()[k - 1])
    }
}

/// The name of the photo that `name` was presumably derived from: `name` with
/// every occurrence of every marker removed.
pub open spec fn original_name(name: Seq<char>) -> Seq<char> {
    strip_markers(name, derivative_markers().len())
}

/// The value of an embedded field, where there is one.
pub open spec fn field_value(data: Seq<u8>, tag: ExifTag) -> Option<Seq<char>> {
    match exif_field_text(data, tag) {
        Ok(t) => Some(t),
        Err(_) => None,
    }
}

/// Whether field values, the software one in lower case and the camera make
/// and model in upper case, mark a photo as already processed (software
/// naming Lightroom) or taken with a Nikon camera.
pub open spec fn excluded_by_folded_fields(
    software_lower: Option<Seq<char>>,
    make_upper: Option<Seq<char>>,
    model_upper: Option<Seq<char>>,
) -> bool {
    ||| software_lower matches Some(t) && contains(t, "lightroom"@)
    ||| make_upper matches Some(t) && contains(t, "NIKON"@)
    ||| model_upper matches Some(t) && contains(t, "NIKON"@)
}

pub open spec fn map_lower(o: Option<Seq<char>>) -> Option<Seq<char>> {
    match o {
        Some(t) => Some(lower_of(t)),
        None => None,
    }
}

pub open spec fn map_upper(o: Option<Seq<char>>) -> Option<Seq<char>> {
    match o {
        Some(t) => Some(upper_of(t)),
        None => None,
    }
}

/// Whether the embedded field values mark a photo as already processed
/// (software naming Lightroom, in any case) or taken with a Nikon camera
/// (make or model naming Nikon, in any case).
pub open spec fn excluded_by_fields(
    software: Option<Seq<char>>,
    make: Option<Seq<char>>,
    model: Option<Seq<char>>,
) -> bool {
    excluded_by_folded_fields(map_lower(software), map_upper(make), map_upper(model))
}

/// Trait for filtering photos based on criteria.
pub trait PhotoFilter {
    /// Whether the photo with this name and these bytes is kept.
    spec fn includes(&self, filename: Seq<char>, data: Seq<u8>) -> bool;

    fn should_include(&self, filename: &str, image_data: &[u8]) -> (r: bool)
        ensures
            r == self.includes(filename@, image_data@),
    ;
}

/// Filter that skips photos already in an existing collection: GIFs,
/// derived copies whose original is present, Lightroom exports and Nikon
/// photos.
pub struct ExistingCollectionFilter {
    all_filenames: Vec<String>,
}

impl View for ExistingCollectionFilter {
    /// The names of all files of the source collection.
    type V = Set<Seq<char>>;

    closed spec fn view(&self) -> Set<Seq<char>> {
        Set::new(|n: Seq<char>| exists|i: int| 0 <= i < self.all_filenames@.len() && #[trigger] self.all_filenames@[i]@ == n)
    }
}

impl ExistingCollectionFilter {
    pub fn new(filenames: Vec<String>) -> (r: Self)
        ensures
            forall|n: Seq<char>| r@.contains(n) <==> exists|i: int| 0 <= i < filenames@.len() && #[trigger] filenames@[i]@ == n,
    {
        ExistingCollectionFilter { all_filenames: filenames }
    }

    /// What the file name alone decides, given the name in upper case:
    /// `Some(false)` for a GIF, for a derived copy whether its original is
    /// absent, and `None` otherwise.
    pub open spec fn name_rule_given(&self, name: Seq<char>, upper: Seq<char>) -> Option<bool> {
        if ends_with(upper, ".GIF"@) {
            Some(false)
        } else if holds_marker(upper) {
            Some(!self@.contains(original_name(name)))
        } else {
            None
        }
    }

    /// What the file name alone decides.
    pub open spec fn name_rule(&self, name: Seq<char>) -> Option<bool> {
        self.name_rule_given(name, upper_of(name))
    }

    /// Whether the photo is kept, given the values of its embedded fields.
    pub open spec fn decision(
        &self,
        name: Seq<char>,
        software: Option<Seq<char>>,
        make: Option<Seq<char>>,
        model: Option<Seq<char>>,
    ) -> bool {
        match self.name_rule(name) {
            Some(b) => b,
            None => !excluded_by_fields(software, make, model),
        }
    }

    fn markers() -> (r: Vec<Vec<char>>)
        ensures
            r.len() == derivative_markers().len(),
            forall|k: int| 0 <= k < r.len() ==> #[trigger] r@[k]@ == derivative_markers()[k],
    {
        let r = vec![
            chars_of("-MIX"),
            chars_of("-EDITED"),
            chars_of("-EFFECTS"),
            chars_of("-ANIMATION"),
            chars_of("-COLLAGE"),
            chars_of("-SMILE"),
            chars_of("-PANO"),
        ];
        assert(r@[0]@ == derivative_markers()[0]);
        assert(r@[1]@ == derivative_markers()[1]);
        assert(r@[2]@ == derivative_markers()[2]);
        assert(r@[3]@ == derivative_markers()[3]);
        assert(r@[4]@ == derivative_markers()[4]);
        assert(r@[5]@ == derivative_markers()[5]);
        assert(r@[6]@ == derivative_markers()[6]);
        r
    }

    /// Whether some name of the collection equals `name`.
    fn has_name(&self, name: &String) -> (r: bool)
        ensures
            r == self@.contains(name@),
    {
        let mut i: usize = 0;
        while i < self.all_filenames.len()
            invariant
                i <= self.all_filenames.len(),
                forall|j: int| 0 <= j < i ==> self.all_filenames@[j]@ != name@,
            decreases self.all_filenames.len() - i,
        {
            if self.all_filenames[i] == *name {
                assert(self@.contains(name@));
                return true;
            }
            i = i + 1;
        }
        false
    }

    /// Whether the collection holds the photo that `duplicate_filename` was
    /// presumably derived from.
    pub fn has_original_file(&self, duplicate_filename: &str) -> (r: bool)
        ensures
            r == self@.contains(original_name(duplicate_filename@)),
    {
        let markers = Self::markers();
        let mut original_name = String::from_str(duplicate_filename);
        let mut k: usize = 0;
        while k < markers.len()
            invariant
                markers.len() == derivative_markers().len(),
                forall|j: int| 0 <= j < markers.len() ==> #[trigger] markers@[j]@ == derivative_markers()[j],
                k <= markers.len(),
                original_name@ == strip_markers(duplicate_filename@, k as nat),
            decreases markers.len() - k,
        {
            original_name = remove_ci_exec(original_name.as_str(), &markers[k]);
            k = k + 1;
        }
        self.has_name(&original_name)
    }

    /// What the file name alone decides, given the name in upper case (see
    /// `name_rule_given`).
    pub fn decide_by_upper_name(&self, filename: &str, upper: &str) -> (r: Option<bool>)
        ensures
            r == self.name_rule_given(filename@, upper@),
    {
        let name = chars_of(upper);
        if ends_with_exec(&name, &chars_of(".GIF")) {
            return Some(false);
        }
        let markers = Self::markers();
        let mut k: usize = 0;
        while k < markers.len()
            invariant
                name@ == upper@,
                !ends_with(upper@, ".GIF"@),
                markers.len() == derivative_markers().len(),
                forall|j: int| 0 <= j < markers.len() ==> #[trigger] markers@[j]@ == derivative_markers()[j],
                k <= markers.len(),
                forall|j: int| 0 <= j < k ==> !contains(upper@, #[trigger] derivative_markers()[j]),
            decreases markers.len() - k,
        {
            if contains_exec(&name, &markers[k]) {
                assert(contains(upper@, derivative_markers()[k as int]));
                return Some(!self.has_original_file(filename));
            }
            k = k + 1;
        }
        None
    }

    /// What the file name alone decides (see `name_rule`).
    pub fn decide_by_name(&self, filename: &str) -> (r: Option<bool>)
        ensures
            r == self.name_rule(filename@),
    {
        let upper = to_upper(filename);
        self.decide_by_upper_name(filename, upper.as_str())
    }

    /// Whether the photo named `filename` is kept, given the values of its
    /// embedded software, camera make and camera model fields.
    pub fn decide(
        &self,
        filename: &str,
        software: &Option<String>,
        make: &Option<String>,
        model: &Option<String>,
    ) -> (r: bool)
        ensures
            r == self.decision(
                filename@,
                opt_chars(*software),
                opt_chars(*make),
                opt_chars(*model),
            ),
    {
        match self.decide_by_name(filename) {
            Some(b) => b,
            None => !fields_exclude(software, make, model),
        }
    }

    fn get_exif_field(image_data: &[u8], tag: ExifTag) -> (r: Option<String>)
        ensures
            match r { Some(t) => field_value(image_data@, tag) == Some(t@), None => field_value(image_data@, tag) is None },
    {
        match get_exif_field(image_data, tag) {
            Ok(t) => Some(t),
            Err(_) => None,
        }
    }
}

/// Whether field values, the software one in lower case and the camera make
/// and model in upper case, exclude a photo (see `excluded_by_folded_fields`).
pub fn folded_fields_exclude(
    software_lower: &Option<String>,
    make_upper: &Option<String>,
    model_upper: &Option<String>,
) -> (r: bool)
    ensures
        r == excluded_by_folded_fields(opt_chars(*software_lower), opt_chars(*make_upper), opt_chars(*model_upper)),
{
    if let Some(t) = software_lower {
        if contains_exec(&chars_of(t.as_str()), &chars_of("lightroom")) {
            return true;
        }
    }
    if let Some(t) = make_upper {
        if contains_exec(&chars_of(t.as_str()), &chars_of("NIKON")) {
            return true;
        }
    }
    if let Some(t) = model_upper {
        if contains_exec(&chars_of(t.as_str()), &chars_of("NIKON")) {
            return true;
        }
    }
    false
}

fn lowered(o: &Option<String>) -> (r: Option<String>)
    ensures
        opt_chars(r) == map_lower(opt_chars(*o)),
{
    match o {
        Some(t) => Some(to_lower(t.as_str())),
        None => None,
    }
}

fn uppered(o: &Option<String>) -> (r: Option<String>)
    ensures
        opt_chars(r) == map_upper(opt_chars(*o)),
{
    match o {
        Some(t) => Some(to_upper(t.as_str())),
        None => None,
    }
}

/// Whether the embedded field values exclude a photo (see `excluded_by_fields`).
pub fn fields_exclude(software: &Option<String>, make: &Option<String>, model: &Option<String>) -> (r: bool)
    ensures
        r == excluded_by_fields(opt_chars(*software), opt_chars(*make), opt_chars(*model)),
{
    folded_fields_exclude(&lowered(software), &uppered(make), &uppered(model))
}

impl PhotoFilter for ExistingCollectionFilter {
    open spec fn includes(&self, filename: Seq<char>, data: Seq<u8>) -> bool {
        self.decision(
            filename,
            field_value(data, ExifTag::Software),
            field_value(data, ExifTag::Make),
            field_value(data, ExifTag::Model),
        )
    }

    fn should_include(&self, filename: &str, image_data: &[u8]) -> (r: bool) {
        if let Some(b) = self.decide_by_name(filename) {
            return b;
        }
        let software = Self::get_exif_field(image_data, ExifTag::Software);
        let make = Self::get_exif_field(image_data, ExifTag::Make);
        let model = Self::get_exif_field(image_data, ExifTag::Model);
        !fields_exclude(&software, &make, &model)
    }
}

/// Filter that accepts all photos.
pub struct NoFilter;

impl NoFilter {
    pub fn new() -> (r: Self) {
        NoFilter
    }
}

impl PhotoFilter for NoFilter {
    open spec fn includes(&self, filename: Seq<char>, data: Seq<u8>) -> bool {
        true
    }

    fn should_include(&self, filename: &str, image_data: &[u8]) -> (r: bool) {
        true
    }
}

/// A GIF is always left out, whatever markers its name holds and whatever
/// the collection holds.
pub proof fn lemma_gif_excluded(filter: ExistingCollectionFilter, filename: Seq<char>, data: Seq<u8>)
    requires
        is_gif_name(filename),
    ensures
        !filter.includes(filename, data),
{
}

/// A derived copy that is not a GIF is left out exactly when the collection
/// holds its original, the name with every marker removed; an orphaned copy
/// is kept.
pub proof fn lemma_derivative_kept_iff_orphan(
    filter: ExistingCollectionFilter,
    filename: Seq<char>,
    data: Seq<u8>,
)
    requires
        has_derivative_marker(filename),
        !is_gif_name(filename),
    ensures
        filter.includes(filename, data) <==> !filter@.contains(original_name(filename)),
{
}

} // verus!
