//! Where in the output tree a photo goes.

use crate::date::CalendarDate;
use crate::pattern::{digits_value, is_digit};
use crate::file_writer::FileSystemWriter;
use crate::text::{chars_of, lemma_parent_of_join, opt_chars, parent_of};
use vstd::prelude::*;

verus! {

/// The character of decimal digit `d`.
pub open spec fn digit_char(d: int) -> char {
    if d == 0 {
        '0'
    } else if d == 1 {
        '1'
    } else if d == 2 {
        '2'
    } else if d == 3 {
        '3'
    } else if d == 4 {
        '4'
    } else if d == 5 {
        '5'
    } else if d == 6 {
        '6'
    } else if d == 7 {
        '7'
    } else if d == 8 {
        '8'
    } else {
        '9'
    }
}

/// `v` (below 10000) as four decimal digits.
pub open spec fn four_digits(v: int) -> Seq<char> {
    seq![digit_char(v / 1000 % 10), digit_char(v / 100 % 10), digit_char(v / 10 % 10), digit_char(v % 10)]
}

/// `v` (below 100) as two decimal digits.
pub open spec fn two_digits(v: int) -> Seq<char> {
    seq![digit_char(v / 10 % 10), digit_char(v % 10)]
}

/// The decimal digits of `v`, without leading zeros.
pub open spec fn decimal(v: nat) -> Seq<char>
    decreases v,
{
    if v < 10 {
        seq![digit_char(v as int)]
    } else {
        decimal(v / 10) + seq![digit_char(v as int % 10)]
    }
}

/// The year as a date format writes it: four digits for years 0 to 9999;
/// other years signed, with at least four digits after the sign.
pub open spec fn year_number_text(y: int) -> Seq<char> {
    if 0 <= y <= 9999 {
        four_digits(y)
    } else if y > 9999 {
        seq!['+'] + decimal(y as nat)
    } else if -y <= 9999 {
        seq!['-'] + four_digits(-y)
    } else {
        seq!['-'] + decimal((-y) as nat)
    }
}

/// `YYYY`.
pub open spec fn year_text(d: CalendarDate) -> Seq<char> {
    year_number_text(d.year as int)
}

/// `YYYY-MM-DD`.
pub open spec fn date_text(d: CalendarDate) -> Seq<char> {
    year_text(d) + seq!['-'] + two_digits(d.month as int) + seq!['-'] + two_digits(d.day as int)
}

/// The date directory for `d`: the existing one that was found, as it is,
/// else `YYYY-MM-DD`.
pub open spec fn date_directory(d: CalendarDate, found: Option<Seq<char>>) -> Seq<char> {
    match found {
        Some(dir) => dir,
        None => date_text(d),
    }
}

/// `YYYY/<date directory>/<filename>`.
pub open spec fn target_path(d: CalendarDate, filename: Seq<char>, found: Option<Seq<char>>) -> Seq<char> {
    year_text(d) + seq!['/'] + date_directory(d, found) + seq!['/'] + filename
}

fn append_digit(out: &mut String, d: u32)
    requires
        d < 10,
    ensures
        final(out)@ == old(out)@ + seq![digit_char(d as int)],
{
    let t = match d {
        0 => "0",
        1 => "1",
        2 => "2",
        3 => "3",
        4 => "4",
        5 => "5",
        6 => "6",
        7 => "7",
        8 => "8",
        _ => "9",
    };
    proof {
        reveal_strlit("0");
        reveal_strlit("1");
        reveal_strlit("2");
        reveal_strlit("3");
        reveal_strlit("4");
        reveal_strlit("5");
        reveal_strlit("6");
        reveal_strlit("7");
        reveal_strlit("8");
        reveal_strlit("9");
        assert(t@ =~= seq![digit_char(d as int)]);
    }
    out.append(t);
}

fn append_char(out: &mut String, c: char)
    requires
        c == '-' || c == '/' || c == '+',
    ensures
        final(out)@ == old(out)@ + seq![c],
{
    let t = if c == '-' { "-" } else if c == '/' { "/" } else { "+" };
    proof {
        reveal_strlit("-");
        reveal_strlit("/");
        reveal_strlit("+");
        assert(t@ =~= seq![c]);
    }
    out.append(t);
}

fn append_decimal(out: &mut String, v: u32)
    ensures
        final(out)@ == old(out)@ + decimal(v as nat),
    decreases v,
{
    if v >= 10 {
        append_decimal(out, v / 10);
    }
    append_digit(out, v % 10);
    assert(v >= 10 ==> decimal(v as nat) == decimal((v / 10) as nat) + seq![digit_char(v as int % 10)]);
}

fn append_four_digits(out: &mut String, v: u32)
    requires
        v <= 9999,
    ensures
        final(out)@ == old(out)@ + four_digits(v as int),
{
    let ghost start = out@;
    append_digit(out, v / 1000 % 10);
    append_digit(out, v / 100 % 10);
    append_digit(out, v / 10 % 10);
    append_digit(out, v % 10);
    assert(out@ =~= start + four_digits(v as int));
}

/// `YYYY` for a well-formed date.
pub fn format_year(d: &CalendarDate) -> (r: String)
    requires
        d.wf(),
    ensures
        r@ == year_text(*d),
{
    let y = d.year;
    let mut out = String::new();
    if 0 <= y && y <= 9999 {
        append_four_digits(&mut out, y as u32);
    } else if y > 9999 {
        append_char(&mut out, '+');
        append_decimal(&mut out, y as u32);
    } else if -y <= 9999 {
        append_char(&mut out, '-');
        append_four_digits(&mut out, (-y) as u32);
    } else {
        append_char(&mut out, '-');
        append_decimal(&mut out, (-y) as u32);
    }
    assert(out@ =~= year_text(*d));
    out
}

/// `YYYY-MM-DD` for a well-formed date.
pub fn format_date(d: &CalendarDate) -> (r: String)
    requires
        d.wf(),
    ensures
        r@ == date_text(*d),
{
    let mut out = format_year(d);
    append_char(&mut out, '-');
    append_digit(&mut out, d.month / 10 % 10);
    append_digit(&mut out, d.month % 10);
    append_char(&mut out, '-');
    append_digit(&mut out, d.day / 10 % 10);
    append_digit(&mut out, d.day % 10);
    assert(out@ =~= date_text(*d));
    out
}

/// The target path of a photo, given the date directory found in the output
/// tree, if any: `YYYY/<directory>/<filename>`, where the directory is the
/// one found, as it is, or else `YYYY-MM-DD`.
pub fn compose_path(date: &CalendarDate, filename: &str, found: Option<String>) -> (r: String)
    requires
        date.wf(),
    ensures
        r@ == target_path(*date, filename@, opt_chars(found)),
{
    let dir = match found {
        Some(existing) => existing,
        None => format_date(date),
    };
    let mut out = format_year(date);
    append_char(&mut out, '/');
    out.append(dir.as_str());
    append_char(&mut out, '/');
    out.append(filename);
    out
}

/// Generates target paths of the form `YYYY/YYYY-MM-DD/<filename>`, reusing
/// a directory of the output tree whose name starts with the date.
pub struct PathGenerator<'a, W: FileSystemWriter> {
    file_writer: &'a W,
}

impl<'a, W: FileSystemWriter> PathGenerator<'a, W> {
    pub fn new(file_writer: &'a W) -> (r: Self) {
        PathGenerator { file_writer }
    }

    /// The target path of a photo taken on `date`: `YYYY/<directory>/<filename>`,
    /// where the directory is the one that the output tree is found to hold
    /// for the date, or else `YYYY-MM-DD`.
    pub fn generate_path(&self, date: &CalendarDate, filename: &str) -> (r: String)
        requires
            date.wf(),
        ensures
            exists|found: Option<Seq<char>>| {
                &&& r@ == target_path(*date, filename@, found)
                &&& (forall|k: int| 0 <= k < filename@.len() ==> filename@[k] != '/') ==> parent_of(r@)
                    == year_text(*date) + seq!['/'] + date_directory(*date, found)
            },
    {
        let year = format_year(date);
        let full_date = format_date(date);
        let found = self.file_writer.find_existing_date_directory(year.as_str(), full_date.as_str());
        let ghost found_view = opt_chars(found);
        let r = compose_path(date, filename, found);
        assert(r@ == target_path(*date, filename@, found_view));
        proof {
            if forall|k: int| 0 <= k < filename@.len() ==> filename@[k] != '/' {
                let dir = year_text(*date) + seq!['/'] + date_directory(*date, found_view);
                lemma_parent_of_join(dir, filename@);
                assert(r@ =~= dir + seq!['/'] + filename@);
            }
        }
        r
    }
}

/// Path generation is deterministic: the same date, file name and directory
/// found in the output tree give the same target path.
pub proof fn lemma_path_deterministic(
    d1: CalendarDate,
    d2: CalendarDate,
    filename1: Seq<char>,
    filename2: Seq<char>,
    found1: Option<Seq<char>>,
    found2: Option<Seq<char>>,
)
    requires
        d1 == d2,
        filename1 == filename2,
        found1 == found2,
    ensures
        target_path(d1, filename1, found1) == target_path(d2, filename2, found2),
{
}

proof fn lemma_digit_char(v: int)
    requires
        0 <= v < 10,
    ensures
        is_digit(digit_char(v)),
        digit_char(v) as int - '0' as int == v,
{
}

/// For a year of four digits, the date directory of a date, where none was
/// found, is `YYYY-MM-DD`: four digits of the year, then two of the month and
/// two of the day, each reading back as that number.
pub proof fn lemma_date_text_reads_back(d: CalendarDate)
    requires
        d.wf(),
        0 <= d.year <= 9999,
    ensures
        date_text(d).len() == 10,
        date_text(d)[4] == '-' && date_text(d)[7] == '-',
        forall|k: int| 0 <= k < 10 && k != 4 && k != 7 ==> is_digit(#[trigger] date_text(d)[k]),
        digits_value(date_text(d), 0, 4) == d.year,
        digits_value(date_text(d), 5, 2) == d.month,
        digits_value(date_text(d), 8, 2) == d.day,
{
    let t = date_text(d);
    let y = d.year as int;
    let m = d.month as int;
    let dd = d.day as int;
    lemma_digit_char(y / 1000 % 10);
    lemma_digit_char(y / 100 % 10);
    lemma_digit_char(y / 10 % 10);
    lemma_digit_char(y % 10);
    lemma_digit_char(m / 10 % 10);
    lemma_digit_char(m % 10);
    lemma_digit_char(dd / 10 % 10);
    lemma_digit_char(dd % 10);
    assert(t[0] == digit_char(y / 1000 % 10));
    assert(t[1] == digit_char(y / 100 % 10));
    assert(t[2] == digit_char(y / 10 % 10));
    assert(t[3] == digit_char(y % 10));
    assert(t[5] == digit_char(m / 10 % 10));
    assert(t[6] == digit_char(m % 10));
    assert(t[8] == digit_char(dd / 10 % 10));
    assert(t[9] == digit_char(dd % 10));
    reveal_with_fuel(digits_value, 5);
    assert((((y / 1000 % 10) * 10 + y / 100 % 10) * 10 + y / 10 % 10) * 10 + y % 10 == y) by (nonlinear_arith)
        requires
            0 <= y <= 9999,
    ;
    assert((m / 10 % 10) * 10 + m % 10 == m) by (nonlinear_arith)
        requires
            1 <= m <= 12,
    ;
    assert((dd / 10 % 10) * 10 + dd % 10 == dd) by (nonlinear_arith)
        requires
            1 <= dd <= 31,
    ;
}

} // verus!
