//! Running a whole collection through filter, date, path and write.

use crate::exif::DateExtractor;
use crate::file_writer::FileSystemWriter;
use crate::path_generator::{target_path, PathGenerator};
use crate::photo_filter::PhotoFilter;
use crate::zip_image_reader::{ZipEntry, ZipImageReader};
use crate::text::{after_last_slash, chars_of, last_slash, lemma_no_slash_after_last, parent_dir};
use vstd::prelude::*;

verus! {

/// Result of organizing a collection.
#[derive(Debug, PartialEq)]
pub struct OrganizeResult {
    pub total_files: usize,
    pub organized_files: usize,
    pub skipped_files: usize,
    /// One line `<name>: <reason>` per entry that failed, in entry order.
    pub errors: Vec<String>,
}

/// What became of one entry.
pub enum EntryOutcome {
    /// Written to the given path of the output tree.
    Organized(Seq<char>),
    /// Left out by the filter.
    Filtered,
    /// Skipped for the given reason.
    Failed(Seq<char>),
}

pub open spec fn date_failure() -> Seq<char> {
    "Failed to extract date"@
}

pub open spec fn directory_failure() -> Seq<char> {
    "Failed to create directory"@
}

pub open spec fn write_failure() -> Seq<char> {
    "Failed to write file"@
}

/// The outcomes that an entry may have: the filter and the date decide,
/// and only writing to the output tree, which may fail, is left open. A
/// written entry goes to `YYYY/<date directory>/<file name>`.
pub open spec fn allowed_outcome<D: DateExtractor, F: PhotoFilter>(
    extractor: D,
    filter: F,
    e: ZipEntry,
    o: EntryOutcome,
) -> bool {
    if !filter.includes(e.name@, e.data@) {
        o == EntryOutcome::Filtered
    } else if extractor.date_for(e.name@, e.data@) is Err {
        o == EntryOutcome::Failed(date_failure())
    } else {
        ||| o matches EntryOutcome::Organized(p) && exists|found: Option<Seq<char>>| p == target_path(
            extractor.date_for(e.name@, e.data@)->Ok_0,
            base_name(e.name@),
            found,
        )
        ||| o == EntryOutcome::Failed(directory_failure())
        ||| o == EntryOutcome::Failed(write_failure())
    }
}

/// How many of the outcomes are `Organized`.
pub open spec fn organized_count(os: Seq<EntryOutcome>) -> nat
    decreases os.len(),
{
    if os.len() == 0 {
        0
    } else {
        organized_count(os.drop_last()) + if os.last() is Organized { 1nat } else { 0nat }
    }
}

/// The error line of each failed entry, in entry order.
pub open spec fn error_lines(es: Seq<ZipEntry>, os: Seq<EntryOutcome>) -> Seq<Seq<char>>
    decreases os.len(),
{
    if os.len() == 0 {
        Seq::empty()
    } else {
        let earlier = error_lines(es, os.drop_last());
        match os.last() {
            EntryOutcome::Failed(reason) => earlier.push(es[os.len() - 1].name@ + ": "@ + reason),
            _ => earlier,
        }
    }
}

/// Whether `r` reports a run over `entries` in which each entry had an
/// allowed outcome.
pub open spec fn reports_run<D: DateExtractor, F: PhotoFilter>(
    extractor: D,
    filter: F,
    entries: Seq<ZipEntry>,
    r: OrganizeResult,
) -> bool {
    &&& r.total_files == entries.len()
    &&& r.organized_files + r.skipped_files == r.total_files
    &&& exists|os: Seq<EntryOutcome>|
        {
            &&& os.len() == entries.len()
            &&& forall|i: int| 0 <= i < os.len() ==> allowed_outcome(extractor, filter, entries[i], #[trigger] os[i])
            &&& r.organized_files == organized_count(os)
            &&& r.errors@.len() == error_lines(entries, os).len()
            &&& forall|k: int| 0 <= k < r.errors@.len() ==> #[trigger] r.errors@[k]@ == error_lines(entries, os)[k]
        }
}

/// The last segment of a `/`-separated path.
pub open spec fn base_name(path: Seq<char>) -> Seq<char> {
    path.subrange(last_slash(path, path.len() as int) + 1, path.len() as int)
}

/// Main orchestrator that coordinates photo organization.
pub struct PhotoOrganizer<'a, R: ZipImageReader, D: DateExtractor, W: FileSystemWriter, F: PhotoFilter> {
    zip_reader: &'a R,
    date_extractor: &'a D,
    path_generator: &'a PathGenerator<'a, W>,
    file_writer: &'a W,
    photo_filter: &'a F,
}

impl<'a, R: ZipImageReader, D: DateExtractor, W: FileSystemWriter, F: PhotoFilter> PhotoOrganizer<'a, R, D, W, F> {
    pub closed spec fn extractor(&self) -> D {
        *self.date_extractor
    }

    pub closed spec fn filter(&self) -> F {
        *self.photo_filter
    }

    pub fn new(
        zip_reader: &'a R,
        date_extractor: &'a D,
        path_generator: &'a PathGenerator<'a, W>,
        file_writer: &'a W,
        photo_filter: &'a F,
    ) -> (r: Self)
        ensures
            r.extractor() == *date_extractor,
            r.filter() == *photo_filter,
    {
        PhotoOrganizer { zip_reader, date_extractor, path_generator, file_writer, photo_filter }
    }

    /// Reads the entries of the source and organizes them; fails only where
    /// the source cannot be read.
    pub fn organize(&self) -> (r: Result<OrganizeResult, String>)
        ensures
            r is Ok ==> exists|es: Seq<ZipEntry>| #[trigger] reports_run(self.extractor(), self.filter(), es, r->Ok_0),
    {
        match self.zip_reader.read_entries() {
            Ok(entries) => {
                let res = self.organize_entries(&entries);
                assert(reports_run(self.extractor(), self.filter(), entries@, res));
                let r = Ok(res);
                assert(r->Ok_0 == res);
                r
            },
            Err(e) => Err(e),
        }
    }

    /// Organizes `entries` one after the other, in order. An entry that is
    /// filtered out, has no date, or cannot be written is skipped; the run
    /// goes on.
    pub fn organize_entries(&self, entries: &Vec<ZipEntry>) -> (r: OrganizeResult)
        ensures
            reports_run(self.extractor(), self.filter(), entries@, r),
    {
        let mut organized_files: usize = 0;
        let mut skipped_files: usize = 0;
        let mut errors: Vec<String> = Vec::new();
        let ghost mut os: Seq<EntryOutcome> = Seq::empty();
        let mut i: usize = 0;
        while i < entries.len()
            invariant
                i <= entries.len(),
                os.len() == i,
                forall|j: int| 0 <= j < i ==> allowed_outcome(self.extractor(), self.filter(), entries@[j], #[trigger] os[j]),
                organized_files == organized_count(os),
                organized_files + skipped_files == i,
                errors@.len() == error_lines(entries@, os).len(),
                forall|k: int| 0 <= k < errors@.len() ==> #[trigger] errors@[k]@ == error_lines(entries@, os)[k],
            decreases entries.len() - i,
        {
            let entry = &entries[i];
            let ghost before = os;
            if !self.photo_filter.should_include(entry.name.as_str(), entry.data.as_slice()) {
                skipped_files = skipped_files + 1;
                proof {
                    os = os.push(EntryOutcome::Filtered);
                }
            } else {
                match self.process_entry(entry) {
                    Ok(path) => {
                        organized_files = organized_files + 1;
                        proof {
                            os = os.push(EntryOutcome::Organized(path@));
                        }
                    },
                    Err(reason) => {
                        skipped_files = skipped_files + 1;
                        let mut line = entry.name.clone();
                        line.append(": ");
                        line.append(reason);
                        errors.push(line);
                        proof {
                            os = os.push(EntryOutcome::Failed(reason@));
                        }
                    },
                }
            }
            proof {
                assert(os.drop_last() =~= before);
            }
            i = i + 1;
        }
        let r = OrganizeResult { total_files: entries.len(), organized_files, skipped_files, errors };
        assert(reports_run(self.extractor(), self.filter(), entries@, r));
        r
    }

    /// Dates `entry` and writes it to `YYYY/<date directory>/<file name>`,
    /// creating that directory first; returns the path written, or the reason
    /// it could not.
    fn process_entry(&self, entry: &ZipEntry) -> (r: Result<String, &'static str>)
        ensures
            self.extractor().date_for(entry.name@, entry.data@) is Err ==> (r matches Err(m) && m@ == date_failure()),
            self.extractor().date_for(entry.name@, entry.data@) is Ok ==> (r is Ok || (r matches Err(m) && (
                m@ == directory_failure() || m@ == write_failure()))),
            r matches Ok(p) ==> exists|found: Option<Seq<char>>| p@ == target_path(
                self.extractor().date_for(entry.name@, entry.data@)->Ok_0,
                base_name(entry.name@),
                found,
            ),
    {
        let date = match self.date_extractor.extract_date(entry.name.as_str(), entry.data.as_slice()) {
            Ok(d) => d,
            Err(_) => return Err("Failed to extract date"),
        };
        let filename = Self::extract_filename_from_path(entry.name.as_str());
        let target_path = self.path_generator.generate_path(&date, filename.as_str());
        if self.ensure_parent_directory_exists(target_path.as_str()).is_err() {
            return Err("Failed to create directory");
        }
        if self.file_writer.write_file(target_path.as_str(), entry.data.as_slice()).is_err() {
            return Err("Failed to write file");
        }
        Ok(target_path)
    }

    /// The last segment of a `/`-separated path.
    pub fn extract_filename_from_path(full_path: &str) -> (r: String)
        ensures
            r@ == base_name(full_path@),
            forall|k: int| 0 <= k < r@.len() ==> r@[k] != '/',
    {
        let chars = chars_of(full_path);
        let start = after_last_slash(&chars);
        proof {
            lemma_no_slash_after_last(full_path@, full_path@.len() as int);
        }
        String::from_str(full_path.substring_char(start, chars.len()))
    }

    /// Asks the writer to create `parent_of(path)`.
    fn ensure_parent_directory_exists(&self, path: &str) -> (r: Result<(), String>) {
        let parent = parent_dir(path);
        self.file_writer.create_directory(parent.as_str())
    }
}

/// The names of the entries that `reader` returns, in order; the reader's
/// error where it fails.
pub fn collect_filenames<R: ZipImageReader>(reader: &R) -> (r: Result<Vec<String>, String>)
    ensures
        r is Ok ==> exists|es: Seq<ZipEntry>| #[trigger] names_are(r->Ok_0@, es),
{
    match reader.read_entries() {
        Ok(entries) => {
            let names = entry_names(&entries);
            let r = Ok(names);
            assert(names_are(r->Ok_0@, entries@));
            r
        },
        Err(e) => Err(e),
    }
}

/// Whether `names` are the names of `entries`, in order.
pub open spec fn names_are(names: Seq<String>, entries: Seq<ZipEntry>) -> bool {
    names.len() == entries.len() && forall|i: int| 0 <= i < names.len() ==> #[trigger] names[i]@ == entries[i].name@
}

/// The names of `entries`, in order.
pub fn entry_names(entries: &Vec<ZipEntry>) -> (r: Vec<String>)
    ensures
        names_are(r@, entries@),
{
    let mut names: Vec<String> = Vec::new();
    let mut i: usize = 0;
    while i < entries.len()
        invariant
            i <= entries.len(),
            names@.len() == i,
            forall|j: int| 0 <= j < i ==> #[trigger] names@[j]@ == entries@[j].name@,
        decreases entries.len() - i,
    {
        names.push(entries[i].name.clone());
        i = i + 1;
    }
    names
}

} // verus!
