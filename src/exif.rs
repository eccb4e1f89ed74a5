//! Finding the date a photo was taken: from its embedded metadata, from its
//! file name, or from the first of the two that yields one.

use crate::date::CalendarDate;
use crate::pattern::{DatePattern, Token};
use crate::text::chars_of;
use chrono::Datelike;
use vstd::prelude::*;

verus! {

/// The embedded metadata fields that this library reads.
#[derive(Clone, Copy, Debug, PartialEq, Eq, Structural)]
pub enum ExifTag {
    DateTimeOriginal,
    Software,
    Make,
    Model,
}

/// Why an embedded field could not be read.
#[derive(Clone, Copy, Debug, PartialEq, Eq, Structural)]
pub enum ExifLookupError {
    /// The bytes hold no metadata container that could be parsed.
    Unreadable,
    /// The container has no such field in its primary image.
    FieldMissing,
}

/// The text shown for field `tag` of the primary image in the metadata
/// embedded in `data`, or why there is none.
pub uninterp spec fn exif_field_text(data: Seq<u8>, tag: ExifTag) -> Result<Seq<char>, ExifLookupError>;

/// Relies on kamadak-exif: `Reader::read_from_container` parses the bytes,
/// `Exif::get_field` looks the tag up in the primary image, and
/// `Field::display_value` renders it as text. All three depend on the bytes
/// and the tag alone.
#[verifier::external_body]
pub(crate) fn get_exif_field(data: &[u8], tag: ExifTag) -> (r: Result<String, ExifLookupError>)
    ensures
        match r {
            Ok(text) => exif_field_text(data@, tag) == Ok::<Seq<char>, ExifLookupError>(text@),
            Err(e) => exif_field_text(data@, tag) == Err::<Seq<char>, ExifLookupError>(e),
        },
{
    let tag = match tag {
        ExifTag::DateTimeOriginal => ::exif::Tag::DateTimeOriginal,
        ExifTag::Software => ::exif::Tag::Software,
        ExifTag::Make => ::exif::Tag::Make,
        ExifTag::Model => ::exif::Tag::Model,
    };
    let mut cursor = std::io::Cursor::new(data);
    match ::exif::Reader::new().read_from_container(&mut cursor) {
        Ok(found) => match found.get_field(tag, ::exif::In::PRIMARY) {
            Some(field) => Ok(field.display_value().to_string()),
            None => Err(ExifLookupError::FieldMissing),
        },
        Err(_) => Err(ExifLookupError::Unreadable),
    }
}

/// Why no date could be found for a photo.
#[derive(Clone, Copy, Debug, PartialEq, Eq, Structural)]
pub enum DateError {
    /// The image bytes hold no readable metadata container.
    MetadataUnreadable,
    /// The metadata has no original capture time.
    NoCaptureTime,
    /// The capture time does not read as a `%Y-%m-%d` date once `:` is read as `-`.
    MalformedCaptureTime,
    /// No date pattern of the file name yields an existing day.
    NoDateInFilename,
}

impl DateError {
    /// A short description of the error.
    pub fn message(&self) -> (r: &'static str) {
        match self {
            DateError::MetadataUnreadable => "Failed to read EXIF data from image",
            DateError::NoCaptureTime => "No DateTimeOriginal field found in EXIF data",
            DateError::MalformedCaptureTime => "Failed to parse date from EXIF",
            DateError::NoDateInFilename => "Failed to extract date from filename",
        }
    }
}

/// A way of finding the date of a photo from its name and bytes.
pub trait DateExtractor {
    /// What `extract_date` returns for this name and these bytes.
    spec fn date_for(&self, filename: Seq<char>, data: Seq<u8>) -> Result<CalendarDate, DateError>;

    fn extract_date(&self, filename: &str, image_data: &[u8]) -> (r: Result<CalendarDate, DateError>)
        ensures
            r == self.date_for(filename@, image_data@),
            r matches Ok(d) ==> d.wf(),
    ;
}

// ----- embedded capture time -----

/// Whether `c` has the Unicode `White_Space` property.
pub open spec fn is_white_space(c: char) -> bool {
    ||| '\t' <= c && c <= '\r'
    ||| c == ' '
    ||| c == '\u{85}'
    ||| c == '\u{A0}'
    ||| c == '\u{1680}'
    ||| '\u{2000}' <= c && c <= '\u{200A}'
    ||| c == '\u{2028}'
    ||| c == '\u{2029}'
    ||| c == '\u{202F}'
    ||| c == '\u{205F}'
    ||| c == '\u{3000}'
}

/// The position of the first character at or after `i` that is not white space.
pub open spec fn skip_white_space(t: Seq<char>, i: int) -> int
    decreases t.len() - i,
{
    if 0 <= i < t.len() && is_white_space(t[i]) {
        skip_white_space(t, i + 1)
    } else {
        i
    }
}

/// The position of the first white space character at or after `i`, or the
/// length of `t`.
pub open spec fn word_end(t: Seq<char>, i: int) -> int
    decreases t.len() - i,
{
    if 0 <= i < t.len() && !is_white_space(t[i]) {
        word_end(t, i + 1)
    } else {
        i
    }
}

/// The first white-space separated word of `t`, empty where there is none.
pub open spec fn first_word(t: Seq<char>) -> Seq<char> {
    t.subrange(skip_white_space(t, 0), word_end(t, skip_white_space(t, 0)))
}

/// `s` with each `:` replaced by `-`.
pub open spec fn dashes_for_colons(s: Seq<char>) -> Seq<char>
    decreases s.len(),
{
    if s.len() == 0 {
        Seq::empty()
    } else {
        dashes_for_colons(s.drop_last()) + seq![if s.last() == ':' { '-' } else { s.last() }]
    }
}

/// The date that a `%Y-%m-%d` date format reads from the whole of `s`.
pub uninterp spec fn iso_date_of(s: Seq<char>) -> Option<CalendarDate>;

/// Relies on chrono's `NaiveDate::parse_from_str` with the format `%Y-%m-%d`:
/// the result depends on the text alone, and a `NaiveDate` is always an
/// existing day within chrono's year range. `Datelike::{year, month, day}`
/// hand back its components.
#[verifier::external_body]
fn parse_iso_date(s: &str) -> (r: Option<CalendarDate>)
    ensures
        r == iso_date_of(s@),
        r matches Some(d) ==> d.wf(),
{
    match chrono::NaiveDate::parse_from_str(s, "%Y-%m-%d") {
        Ok(d) => Some(CalendarDate { year: d.year(), month: d.month(), day: d.day() }),
        Err(_) => None,
    }
}

/// The date of a capture time text such as `2012:10:06 13:09:32`: its first
/// white-space separated word, with `:` read as `-`, as a `%Y-%m-%d` date.
pub open spec fn capture_date_of_text(t: Seq<char>) -> Option<CalendarDate> {
    iso_date_of(dashes_for_colons(first_word(t)))
}

/// What the embedded metadata of `data` says of the capture date.
pub open spec fn embedded_date(data: Seq<u8>) -> Result<CalendarDate, DateError> {
    match exif_field_text(data, ExifTag::DateTimeOriginal) {
        Err(ExifLookupError::Unreadable) => Err(DateError::MetadataUnreadable),
        Err(ExifLookupError::FieldMissing) => Err(DateError::NoCaptureTime),
        Ok(text) => match capture_date_of_text(text) {
            Some(d) => Ok(d),
            None => Err(DateError::MalformedCaptureTime),
        },
    }
}

pub fn is_white_space_exec(c: char) -> (r: bool)
    ensures
        r == is_white_space(c),
{
    ('\t' <= c && c <= '\r') || c == ' ' || c == '\u{85}' || c == '\u{A0}' || c == '\u{1680}'
        || ('\u{2000}' <= c && c <= '\u{200A}') || c == '\u{2028}' || c == '\u{2029}'
        || c == '\u{202F}' || c == '\u{205F}' || c == '\u{3000}'
}

/// The first white-space separated word of `text`, with each `:` replaced
/// by `-`: `2012:10:06 13:09:32` gives `2012-10-06`.
pub fn normalized_date_part(text: &str) -> (r: String)
    ensures
        r@ == dashes_for_colons(first_word(text@)),
{
    let t = chars_of(text);
    let n = t.len();
    let mut start: usize = 0;
    while start < n && is_white_space_exec(t[start])
        invariant
            n == t@.len(),
            start <= n,
            skip_white_space(t@, 0) == skip_white_space(t@, start as int),
        decreases n - start,
    {
        start = start + 1;
    }
    let ghost word_start = start as int;
    let mut out = String::new();
    let mut run_start: usize = start;
    let mut i: usize = start;
    while i < n && !is_white_space_exec(t[i])
        invariant
            n == t@.len(),
            t@ == text@,
            word_start == skip_white_space(t@, 0),
            0 <= word_start <= run_start <= i <= n,
            word_end(t@, 0 + word_start) == word_end(t@, i as int),
            out@ + t@.subrange(run_start as int, i as int) == dashes_for_colons(t@.subrange(word_start, i as int)),
            forall|k: int| run_start <= k < i ==> t@[k] != ':',
        decreases n - i,
    {
        let ghost before = t@.subrange(word_start, i as int);
        let ghost next = t@.subrange(word_start, i + 1);
        proof {
            assert(next =~= before.push(t@[i as int]));
            assert(next.drop_last() =~= before);
            assert(next.last() == t@[i as int]);
            assert(dashes_for_colons(next) == dashes_for_colons(before) + seq![
                if t@[i as int] == ':' { '-' } else { t@[i as int] },
            ]);
            assert(t@.subrange(run_start as int, i + 1) =~= t@.subrange(run_start as int, i as int).push(t@[i as int]));
        }
        if t[i] == ':' {
            out.append(text.substring_char(run_start, i));
            proof {
                reveal_strlit("-");
            }
            out.append("-");
            run_start = i + 1;
            assert(out@ + t@.subrange(run_start as int, i + 1) =~= dashes_for_colons(t@.subrange(word_start, i + 1)));
        } else {
            assert(out@ + t@.subrange(run_start as int, i + 1) =~= dashes_for_colons(t@.subrange(word_start, i + 1)));
        }
        i = i + 1;
    }
    out.append(text.substring_char(run_start, i));
    out
}

/// Concrete implementation that reads the date from embedded metadata.
pub struct ExifDateExtractor;

impl ExifDateExtractor {
    pub fn new() -> (r: Self) {
        ExifDateExtractor
    }

    /// The text of the original capture time embedded in `image_data`.
    pub fn get_datetime_original_field(image_data: &[u8]) -> (r: Result<String, ExifLookupError>)
        ensures
            match r {
                Ok(text) => exif_field_text(image_data@, ExifTag::DateTimeOriginal)
                    == Ok::<Seq<char>, ExifLookupError>(text@),
                Err(e) => exif_field_text(image_data@, ExifTag::DateTimeOriginal)
                    == Err::<Seq<char>, ExifLookupError>(e),
            },
    {
        get_exif_field(image_data, ExifTag::DateTimeOriginal)
    }

    /// The date of a capture time text such as `2012:10:06 13:09:32` (see
    /// `capture_date_of_text`).
    pub fn parse_exif_date_string(text: &str) -> (r: Result<CalendarDate, DateError>)
        ensures
            r == (match capture_date_of_text(text@) {
                Some(d) => Ok(d),
                None => Err(DateError::MalformedCaptureTime),
            }),
            r matches Ok(d) ==> d.wf(),
    {
        let normalized = normalized_date_part(text);
        match parse_iso_date(normalized.as_str()) {
            Some(d) => Ok(d),
            None => Err(DateError::MalformedCaptureTime),
        }
    }
}

impl DateExtractor for ExifDateExtractor {
    open spec fn date_for(&self, filename: Seq<char>, data: Seq<u8>) -> Result<CalendarDate, DateError> {
        embedded_date(data)
    }

    fn extract_date(&self, filename: &str, image_data: &[u8]) -> (r: Result<CalendarDate, DateError>) {
        match Self::get_datetime_original_field(image_data) {
            Err(ExifLookupError::Unreadable) => Err(DateError::MetadataUnreadable),
            Err(ExifLookupError::FieldMissing) => Err(DateError::NoCaptureTime),
            Ok(text) => Self::parse_exif_date_string(text.as_str()),
        }
    }
}

// ----- file name patterns -----

/// `Screenshot_`.
pub open spec fn screenshot_prefix_tokens() -> Seq<Token> {
    seq![
        Token::Exactly('S'), Token::Exactly('c'), Token::Exactly('r'), Token::Exactly('e'),
        Token::Exactly('e'), Token::Exactly('n'), Token::Exactly('s'), Token::Exactly('h'),
        Token::Exactly('o'), Token::Exactly('t'), Token::Exactly('_'),
    ]
}

/// `IMG` followed by `sep`.
pub open spec fn img_prefix_tokens(sep: char) -> Seq<Token> {
    seq![Token::Exactly('I'), Token::Exactly('M'), Token::Exactly('G'), Token::Exactly(sep)]
}

pub open spec fn digit_tokens(n: nat) -> Seq<Token> {
    Seq::new(n, |k: int| Token::Digit)
}

/// `YYYY-MM-DD`.
pub open spec fn dashed_date_tokens() -> Seq<Token> {
    digit_tokens(4) + seq![Token::Exactly('-')] + digit_tokens(2) + seq![Token::Exactly('-')]
        + digit_tokens(2)
}

/// `YYYYMMDD_HHMMSS`.
pub open spec fn compact_datetime_tokens() -> Seq<Token> {
    digit_tokens(8) + seq![Token::Exactly('_')] + digit_tokens(6)
}

/// The date in a file name, from the first of these patterns whose leftmost
/// match is an existing day: `Screenshot_YYYY-MM-DD`, `YYYY-MM-DD`,
/// `YYYYMMDD_HHMMSS`, `IMG_YYYYMMDD_HHMMSS`, `IMG-YYYYMMDD`.
pub open spec fn filename_date(s: Seq<char>) -> Option<CalendarDate> {
    let screenshot = DatePattern::date_of(
        screenshot_prefix_tokens() + dashed_date_tokens(), 11, 16, 19, s);
    let dashed = DatePattern::date_of(dashed_date_tokens(), 0, 5, 8, s);
    let compact = DatePattern::date_of(compact_datetime_tokens(), 0, 4, 6, s);
    let img_underscore = DatePattern::date_of(
        img_prefix_tokens('_') + compact_datetime_tokens(), 4, 8, 10, s);
    let img_dash = DatePattern::date_of(img_prefix_tokens('-') + digit_tokens(8), 4, 8, 10, s);
    if screenshot is Some {
        screenshot
    } else if dashed is Some {
        dashed
    } else if compact is Some {
        compact
    } else if img_underscore is Some {
        img_underscore
    } else {
        img_dash
    }
}

fn screenshot_prefix() -> (r: Vec<Token>)
    ensures
        r@ == screenshot_prefix_tokens(),
{
    let r = vec![
        Token::Exactly('S'), Token::Exactly('c'), Token::Exactly('r'), Token::Exactly('e'),
        Token::Exactly('e'), Token::Exactly('n'), Token::Exactly('s'), Token::Exactly('h'),
        Token::Exactly('o'), Token::Exactly('t'), Token::Exactly('_'),
    ];
    assert(r@ =~= screenshot_prefix_tokens());
    r
}

fn img_prefix(sep: char) -> (r: Vec<Token>)
    ensures
        r@ == img_prefix_tokens(sep),
{
    let r = vec![Token::Exactly('I'), Token::Exactly('M'), Token::Exactly('G'), Token::Exactly(sep)];
    assert(r@ =~= img_prefix_tokens(sep));
    r
}

fn digits(n: usize) -> (r: Vec<Token>)
    ensures
        r@ == digit_tokens(n as nat),
{
    let mut r: Vec<Token> = Vec::new();
    let mut i: usize = 0;
    while i < n
        invariant
            i <= n,
            r@ == digit_tokens(i as nat),
        decreases n - i,
    {
        r.push(Token::Digit);
        i = i + 1;
        assert(r@ =~= digit_tokens(i as nat));
    }
    r
}

fn dashed_date() -> (r: Vec<Token>)
    ensures
        r@ == dashed_date_tokens(),
{
    let mut r = digits(4);
    r.push(Token::Exactly('-'));
    let mut m = digits(2);
    r.append(&mut m);
    r.push(Token::Exactly('-'));
    let mut d = digits(2);
    r.append(&mut d);
    assert(r@ =~= dashed_date_tokens());
    r
}

fn compact_datetime() -> (r: Vec<Token>)
    ensures
        r@ == compact_datetime_tokens(),
{
    let mut r = digits(8);
    r.push(Token::Exactly('_'));
    let mut t = digits(6);
    r.append(&mut t);
    assert(r@ =~= compact_datetime_tokens());
    r
}

/// Concrete implementation that reads the date from the file name.
pub struct FilenameBasedDateExtractor;

impl FilenameBasedDateExtractor {
    pub fn new() -> (r: Self) {
        FilenameBasedDateExtractor
    }

    fn pattern(mut lead: Vec<Token>, mut tokens: Vec<Token>, year_at: usize, month_at: usize, day_at: usize) -> (r: DatePattern)
        requires
            year_at == lead@.len(),
            month_at == year_at + 4 && day_at == year_at + 6 || month_at == year_at + 5 && day_at == year_at + 8,
            year_at + 8 <= lead@.len() + tokens@.len() < usize::MAX,
            month_at == year_at + 5 ==> tokens@.len() >= 10,
            forall|k: int| 0 <= k < 4 ==> #[trigger] tokens@[k] == Token::Digit,
            month_at == year_at + 4 ==> forall|k: int| 4 <= k < 8 ==> #[trigger] tokens@[k] == Token::Digit,
            month_at == year_at + 5 ==> forall|k: int| 5 <= k < 7 ==> #[trigger] tokens@[k] == Token::Digit,
            month_at == year_at + 5 ==> forall|k: int| 8 <= k < 10 ==> #[trigger] tokens@[k] == Token::Digit,
        ensures
            r.wf(),
            r.tokens@ == lead@ + tokens@,
            r.year_at == year_at && r.month_at == month_at && r.day_at == day_at,
    {
        let ghost given = tokens@;
        lead.append(&mut tokens);
        let r = DatePattern { tokens: lead, year_at, month_at, day_at };
        assert forall|k: int| 0 <= k < 4 implies #[trigger] r.tokens@[r.year_at + k] == Token::Digit by {
            assert(r.tokens@[r.year_at + k] == given[k]);
        }
        assert forall|k: int| 0 <= k < 2 implies #[trigger] r.tokens@[r.month_at + k] == Token::Digit by {
            assert(r.tokens@[r.month_at + k] == given[(month_at - year_at) + k]);
        }
        assert forall|k: int| 0 <= k < 2 implies #[trigger] r.tokens@[r.day_at + k] == Token::Digit by {
            assert(r.tokens@[r.day_at + k] == given[(day_at - year_at) + k]);
        }
        r
    }

    /// The date at the leftmost `Screenshot_YYYY-MM-DD` in `s`.
    fn try_parse_screenshot_pattern(s: &Vec<char>) -> (r: Option<CalendarDate>)
        ensures
            r == DatePattern::date_of(screenshot_prefix_tokens() + dashed_date_tokens(), 11, 16, 19, s@),
            r matches Some(d) ==> d.wf(),
    {
        Self::pattern(screenshot_prefix(), dashed_date(), 11, 16, 19).find_date(s)
    }

    /// The date at the leftmost `YYYY-MM-DD` in `s`.
    fn try_parse_date_with_dashes(s: &Vec<char>) -> (r: Option<CalendarDate>)
        ensures
            r == DatePattern::date_of(dashed_date_tokens(), 0, 5, 8, s@),
            r matches Some(d) ==> d.wf(),
    {
        assert(Seq::<Token>::empty() + dashed_date_tokens() =~= dashed_date_tokens());
        Self::pattern(Vec::new(), dashed_date(), 0, 5, 8).find_date(s)
    }

    /// The date at the leftmost `YYYYMMDD_HHMMSS` in `s`.
    fn try_parse_compact_datetime_pattern(s: &Vec<char>) -> (r: Option<CalendarDate>)
        ensures
            r == DatePattern::date_of(compact_datetime_tokens(), 0, 4, 6, s@),
            r matches Some(d) ==> d.wf(),
    {
        assert(Seq::<Token>::empty() + compact_datetime_tokens() =~= compact_datetime_tokens());
        Self::pattern(Vec::new(), compact_datetime(), 0, 4, 6).find_date(s)
    }

    /// The date at the leftmost `IMG_YYYYMMDD_HHMMSS` in `s`.
    fn try_parse_img_underscore_pattern(s: &Vec<char>) -> (r: Option<CalendarDate>)
        ensures
            r == DatePattern::date_of(img_prefix_tokens('_') + compact_datetime_tokens(), 4, 8, 10, s@),
            r matches Some(d) ==> d.wf(),
    {
        Self::pattern(img_prefix('_'), compact_datetime(), 4, 8, 10).find_date(s)
    }

    /// The date at the leftmost `IMG-YYYYMMDD` in `s`.
    fn try_parse_img_dash_pattern(s: &Vec<char>) -> (r: Option<CalendarDate>)
        ensures
            r == DatePattern::date_of(img_prefix_tokens('-') + digit_tokens(8), 4, 8, 10, s@),
            r matches Some(d) ==> d.wf(),
    {
        Self::pattern(img_prefix('-'), digits(8), 4, 8, 10).find_date(s)
    }

    /// The date from the first file name pattern whose leftmost match is an
    /// existing day.
    pub fn try_parse_patterns(filename: &str) -> (r: Option<CalendarDate>)
        ensures
            r == filename_date(filename@),
            r matches Some(d) ==> d.wf(),
    {
        let s = chars_of(filename);
        if let Some(d) = Self::try_parse_screenshot_pattern(&s) {
            return Some(d);
        }
        if let Some(d) = Self::try_parse_date_with_dashes(&s) {
            return Some(d);
        }
        if let Some(d) = Self::try_parse_compact_datetime_pattern(&s) {
            return Some(d);
        }
        if let Some(d) = Self::try_parse_img_underscore_pattern(&s) {
            return Some(d);
        }
        Self::try_parse_img_dash_pattern(&s)
    }
}

impl DateExtractor for FilenameBasedDateExtractor {
    open spec fn date_for(&self, filename: Seq<char>, data: Seq<u8>) -> Result<CalendarDate, DateError> {
        match filename_date(filename) {
            Some(d) => Ok(d),
            None => Err(DateError::NoDateInFilename),
        }
    }

    fn extract_date(&self, filename: &str, image_data: &[u8]) -> (r: Result<CalendarDate, DateError>) {
        match Self::try_parse_patterns(filename) {
            Some(d) => Ok(d),
            None => Err(DateError::NoDateInFilename),
        }
    }
}

// ----- both, metadata first -----

/// The date from embedded metadata where it yields one, else from the file name.
pub open spec fn resolved_date(filename: Seq<char>, data: Seq<u8>) -> Result<CalendarDate, DateError> {
    match embedded_date(data) {
        Ok(d) => Ok(d),
        Err(_) => match filename_date(filename) {
            Some(d) => Ok(d),
            None => Err(DateError::NoDateInFilename),
        },
    }
}

/// Composite extractor that tries embedded metadata first, then the file name.
pub struct CompositeDateExtractor {
    exif_extractor: ExifDateExtractor,
    filename_extractor: FilenameBasedDateExtractor,
}

impl CompositeDateExtractor {
    pub fn new() -> (r: Self) {
        CompositeDateExtractor {
            exif_extractor: ExifDateExtractor::new(),
            filename_extractor: FilenameBasedDateExtractor::new(),
        }
    }
}

impl DateExtractor for CompositeDateExtractor {
    open spec fn date_for(&self, filename: Seq<char>, data: Seq<u8>) -> Result<CalendarDate, DateError> {
        resolved_date(filename, data)
    }

    fn extract_date(&self, filename: &str, image_data: &[u8]) -> (r: Result<CalendarDate, DateError>) {
        match self.exif_extractor.extract_date(filename, image_data) {
            Ok(d) => Ok(d),
            Err(_) => self.filename_extractor.extract_date(filename, image_data),
        }
    }
}

/// Embedded metadata takes precedence: wherever the metadata extractor finds
/// a date, the composite extractor returns that same date, whatever date the
/// file name holds.
pub proof fn lemma_metadata_precedence(
    composite: CompositeDateExtractor,
    metadata: ExifDateExtractor,
    filename: Seq<char>,
    data: Seq<u8>,
)
    requires
        metadata.date_for(filename, data) is Ok,
    ensures
        composite.date_for(filename, data) == metadata.date_for(filename, data),
{
}

} // verus!
