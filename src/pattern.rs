//! Fixed-width character patterns and the dates written in them.

use crate::date::{is_valid_ymd, CalendarDate};
use vstd::prelude::*;

verus! {

/// One position of a pattern.
#[derive(Clone, Copy, Debug, PartialEq, Eq, Structural)]
pub enum Token {
    /// An ASCII decimal digit.
    Digit,
    /// Exactly this character.
    Exactly(char),
}

pub open spec fn is_digit(c: char) -> bool {
    '0' <= c && c <= '9'
}

pub open spec fn token_accepts(t: Token, c: char) -> bool {
    match t {
        Token::Digit => is_digit(c),
        Token::Exactly(x) => c == x,
    }
}

/// Whether the pattern `p` matches `s` at position `i`.
pub open spec fn pattern_at(s: Seq<char>, p: Seq<Token>, i: int) -> bool {
    &&& 0 <= i
    &&& i + p.len() <= s.len()
    &&& forall|k: int| 0 <= k < p.len() ==> token_accepts(p[k], #[trigger] s[i + k])
}

/// The leftmost position at or after `i` where `p` matches `s`.
pub open spec fn first_match_from(s: Seq<char>, p: Seq<Token>, i: int) -> Option<int>
    decreases s.len() - i,
{
    if i < 0 || i >= s.len() || i + p.len() > s.len() {
        None
    } else if pattern_at(s, p, i) {
        Some(i)
    } else {
        first_match_from(s, p, i + 1)
    }
}

/// The decimal value of the `n` characters of `s` from position `i`.
pub open spec fn digits_value(s: Seq<char>, i: int, n: nat) -> int
    decreases n,
{
    if n == 0 {
        0
    } else {
        digits_value(s, i, (n - 1) as nat) * 10 + (s[i + n - 1] as int - '0' as int)
    }
}

pub open spec fn pow10(n: nat) -> int
    decreases n,
{
    if n == 0 {
        1
    } else {
        10 * pow10((n - 1) as nat)
    }
}

/// The date written with a four-digit year at `y`, and two-digit month and
/// day at `m` and `d`, where those digits form an existing day.
pub open spec fn date_at(s: Seq<char>, y: int, m: int, d: int) -> Option<CalendarDate> {
    let year = digits_value(s, y, 4);
    let month = digits_value(s, m, 2);
    let day = digits_value(s, d, 2);
    if is_valid_ymd(year, month, day) {
        Some(CalendarDate { year: year as i32, month: month as u32, day: day as u32 })
    } else {
        None
    }
}

/// A pattern with the positions of its year (four digits), month and day
/// (two digits each).
pub struct DatePattern {
    pub tokens: Vec<Token>,
    pub year_at: usize,
    pub month_at: usize,
    pub day_at: usize,
}

impl DatePattern {
    pub open spec fn wf(&self) -> bool {
        &&& self.year_at + 4 <= self.tokens.len()
        &&& self.month_at + 2 <= self.tokens.len()
        &&& self.day_at + 2 <= self.tokens.len()
        &&& forall|k: int| 0 <= k < 4 ==> #[trigger] self.tokens@[self.year_at + k] == Token::Digit
        &&& forall|k: int| 0 <= k < 2 ==> #[trigger] self.tokens@[self.month_at + k] == Token::Digit
        &&& forall|k: int| 0 <= k < 2 ==> #[trigger] self.tokens@[self.day_at + k] == Token::Digit
    }

    /// The date that the pattern `tokens`, with its year, month and day at the
    /// given offsets, reads at its leftmost match in `s`.
    pub open spec fn date_of(tokens: Seq<Token>, year_at: int, month_at: int, day_at: int, s: Seq<char>) -> Option<CalendarDate> {
        match first_match_from(s, tokens, 0) {
            Some(i) => date_at(s, i + year_at, i + month_at, i + day_at),
            None => None,
        }
    }

    /// The date that this pattern reads at its leftmost match in `s`.
    pub open spec fn date_in(&self, s: Seq<char>) -> Option<CalendarDate> {
        Self::date_of(self.tokens@, self.year_at as int, self.month_at as int, self.day_at as int, s)
    }

    /// The date read at the leftmost match of the pattern in `s`, if there is
    /// a match and its digits form an existing day.
    pub fn find_date(&self, s: &Vec<char>) -> (r: Option<CalendarDate>)
        requires
            self.wf(),
        ensures
            r == self.date_in(s@),
            r matches Some(d) ==> d.wf(),
    {
        match first_match(s, &self.tokens, 0) {
            Some(i) => {
                proof {
                    lemma_first_match_is_match(s@, self.tokens@, 0);
                    assert(pattern_at(s@, self.tokens@, i as int));
                    assert forall|k: int| 0 <= k < 4 implies is_digit(
                        #[trigger] s@[(i + self.year_at) + k],
                    ) by {
                        assert(token_accepts(self.tokens@[self.year_at + k], s@[i + (self.year_at + k)]));
                    }
                    assert forall|k: int| 0 <= k < 2 implies is_digit(
                        #[trigger] s@[(i + self.month_at) + k],
                    ) by {
                        assert(token_accepts(self.tokens@[self.month_at + k], s@[i + (self.month_at + k)]));
                    }
                    assert forall|k: int| 0 <= k < 2 implies is_digit(
                        #[trigger] s@[(i + self.day_at) + k],
                    ) by {
                        assert(token_accepts(self.tokens@[self.day_at + k], s@[i + (self.day_at + k)]));
                    }
                }
                read_date_at(s, i + self.year_at, i + self.month_at, i + self.day_at)
            },
            None => None,
        }
    }
}

pub proof fn lemma_first_match_is_match(s: Seq<char>, p: Seq<Token>, i: int)
    ensures
        first_match_from(s, p, i) matches Some(j) ==> i <= j && pattern_at(s, p, j),
    decreases s.len() - i,
{
    if !(i < 0 || i >= s.len() || i + p.len() > s.len()) && !pattern_at(s, p, i) {
        lemma_first_match_is_match(s, p, i + 1);
    }
}

pub proof fn lemma_digits_bound(s: Seq<char>, i: int, n: nat)
    requires
        forall|k: int| 0 <= k < n ==> is_digit(#[trigger] s[i + k]),
    ensures
        0 <= digits_value(s, i, n) < pow10(n),
    decreases n,
{
    if n > 0 {
        lemma_digits_bound(s, i, (n - 1) as nat);
        assert(is_digit(s[i + (n - 1)]));
        let prev = digits_value(s, i, (n - 1) as nat);
        let p = pow10((n - 1) as nat);
        assert(prev * 10 + 9 < p * 10) by (nonlinear_arith)
            requires
                prev < p,
        ;
    }
}

/// Whether `p` matches `s` at position `i`.
pub fn matches_at(s: &Vec<char>, p: &Vec<Token>, i: usize) -> (r: bool)
    ensures
        r == pattern_at(s@, p@, i as int),
{
    if p.len() > s.len() || i > s.len() - p.len() {
        return false;
    }
    let mut k: usize = 0;
    while k < p.len()
        invariant
            i + p.len() <= s.len(),
            k <= p.len(),
            forall|j: int| 0 <= j < k ==> token_accepts(p@[j], #[trigger] s@[i + j]),
        decreases p.len() - k,
    {
        let c = s[i + k];
        let ok = match p[k] {
            Token::Digit => '0' <= c && c <= '9',
                Token::Exactly(x) => c == x,
        };
        if !ok {
            return false;
        }
        k = k + 1;
    }
    true
}

/// The leftmost position at or after `from` where `p` matches `s`.
pub fn first_match(s: &Vec<char>, p: &Vec<Token>, from: usize) -> (r: Option<usize>)
    ensures
        r == (match first_match_from(s@, p@, from as int) {
            Some(j) => Some(j as usize),
            None => None::<usize>,
        }),
        r matches Some(j) ==> first_match_from(s@, p@, from as int) == Some(j as int),
        r matches Some(j) ==> j + p@.len() <= s@.len() <= usize::MAX,
{
    let mut i: usize = from;
    while i < s.len() && p.len() <= s.len() - i
        invariant
            from <= i,
            first_match_from(s@, p@, from as int) == first_match_from(s@, p@, i as int),
        decreases s.len() - i,
    {
        if matches_at(s, p, i) {
            return Some(i);
        }
        i = i + 1;
    }
    None
}

/// The decimal value of the `n` digits of `s` from position `i`.
pub fn read_digits(s: &Vec<char>, i: usize, n: usize) -> (r: u32)
    requires
        n <= 4,
        i + n <= s.len(),
        forall|k: int| 0 <= k < n ==> is_digit(#[trigger] s@[i + k]),
    ensures
        r == digits_value(s@, i as int, n as nat),
        r < pow10(n as nat),
{
    let mut v: u32 = 0;
    let mut k: usize = 0;
    while k < n
        invariant
            n <= 4,
            i + n <= s.len(),
            k <= n,
            forall|j: int| 0 <= j < n ==> is_digit(#[trigger] s@[i + j]),
            v == digits_value(s@, i as int, k as nat),
        decreases n - k,
    {
        proof {
            lemma_digits_bound(s@, i as int, k as nat);
            reveal_with_fuel(pow10, 5);
            assert(pow10(k as nat) <= 1000);
            assert(is_digit(s@[i + k]));
        }
        let d = s[i + k] as u32 - '0' as u32;
        v = v * 10 + d;
        k = k + 1;
    }
    proof {
        lemma_digits_bound(s@, i as int, n as nat);
    }
    v
}

/// The date written at the given positions of `s`, if it is an existing day.
pub fn read_date_at(s: &Vec<char>, y: usize, m: usize, d: usize) -> (r: Option<CalendarDate>)
    requires
        y + 4 <= s.len(),
        m + 2 <= s.len(),
        d + 2 <= s.len(),
        forall|k: int| 0 <= k < 4 ==> is_digit(#[trigger] s@[y + k]),
        forall|k: int| 0 <= k < 2 ==> is_digit(#[trigger] s@[m + k]),
        forall|k: int| 0 <= k < 2 ==> is_digit(#[trigger] s@[d + k]),
    ensures
        r == date_at(s@, y as int, m as int, d as int),
        r matches Some(x) ==> x.wf(),
{
    let year = read_digits(s, y, 4);
    let month = read_digits(s, m, 2);
    let day = read_digits(s, d, 2);
    proof {
        reveal_with_fuel(pow10, 5);
    }
    CalendarDate::from_ymd(year as i32, month, day)
}

} // verus!
