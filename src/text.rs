//! Character-level helpers: search, case mapping, marker removal and `/`-separated paths.

use vstd::prelude::*;

verus! {

/// The code of `c` with ASCII lower-case letters taken to upper case.
pub open spec fn fold_case(c: char) -> u32 {
    if 'a' <= c && c <= 'z' {
        (c as u32 - 32) as u32
    } else {
        c as u32
    }
}

/// Whether `a` and `b` are equal when ASCII letter case is ignored.
pub open spec fn same_char_ci(a: char, b: char) -> bool {
    fold_case(a) == fold_case(b)
}

/// Whether `word` occurs in `s` at position `i`, ignoring ASCII letter case.
pub open spec fn occurs_ci_at(s: Seq<char>, i: int, word: Seq<char>) -> bool {
    &&& 0 <= i
    &&& i + word.len() <= s.len()
    &&& forall|k: int| 0 <= k < word.len() ==> same_char_ci(#[trigger] s[i + k], word[k])
}

/// What is left of `s` from position `i` on once each occurrence of `word` is
/// removed, occurrences being taken left to right without overlap.
pub open spec fn remove_ci_from(s: Seq<char>, word: Seq<char>, i: int) -> Seq<char>
    decreases s.len() - i,
{
    if i < 0 || i >= s.len() {
        Seq::empty()
    } else if word.len() > 0 && occurs_ci_at(s, i, word) {
        remove_ci_from(s, word, i + word.len())
    } else {
        seq![s[i]] + remove_ci_from(s, word, i + 1)
    }
}

/// `s` with each occurrence of `word` removed, ignoring ASCII letter case.
pub open spec fn remove_ci(s: Seq<char>, word: Seq<char>) -> Seq<char> {
    remove_ci_from(s, word, 0)
}

/// Whether `word` occurs in `s` at position `i`.
pub open spec fn occurs_at(s: Seq<char>, i: int, word: Seq<char>) -> bool {
    &&& 0 <= i
    &&& i + word.len() <= s.len()
    &&& forall|k: int| 0 <= k < word.len() ==> #[trigger] s[i + k] == word[k]
}

/// Whether `word` occurs anywhere in `s`.
pub open spec fn contains(s: Seq<char>, word: Seq<char>) -> bool {
    exists|i: int| occurs_at(s, i, word)
}

/// Whether `s` ends with `word`.
pub open spec fn ends_with(s: Seq<char>, word: Seq<char>) -> bool {
    word.len() <= s.len() && occurs_at(s, s.len() - word.len(), word)
}

/// The text of `s` in upper case, as Unicode maps each character.
pub uninterp spec fn upper_of(s: Seq<char>) -> Seq<char>;

/// The text of `s` in lower case, as Unicode maps each character.
pub uninterp spec fn lower_of(s: Seq<char>) -> Seq<char>;

/// Relies on `str::to_uppercase`: the result depends on the text alone.
#[verifier::external_body]
pub(crate) fn to_upper(s: &str) -> (r: String)
    ensures
        r@ == upper_of(s@),
{
    s.to_uppercase()
}

/// Relies on `str::to_lowercase`: the result depends on the text alone.
#[verifier::external_body]
pub(crate) fn to_lower(s: &str) -> (r: String)
    ensures
        r@ == lower_of(s@),
{
    s.to_lowercase()
}

/// The characters of an optional string.
pub open spec fn opt_chars(o: Option<String>) -> Option<Seq<char>> {
    match o {
        Some(s) => Some(s@),
        None => None,
    }
}

/// The characters of `s`, in order.
pub fn chars_of(s: &str) -> (r: Vec<char>)
    ensures
        r@ == s@,
{
    let n = s.unicode_len();
    let mut r: Vec<char> = Vec::with_capacity(n);
    let mut i: usize = 0;
    while i < n
        invariant
            n == s@.len(),
            i <= n,
            r@ == s@.subrange(0, i as int),
        decreases n - i,
    {
        r.push(s.get_char(i));
        i = i + 1;
    }
    r
}

/// `fold_case` in executable form.
pub fn fold_case_exec(c: char) -> (r: u32)
    ensures
        r == fold_case(c),
{
    if 'a' <= c && c <= 'z' {
        c as u32 - 32
    } else {
        c as u32
    }
}

/// Whether `word` occurs in `s` at position `i`, ignoring ASCII letter case.
pub fn occurs_ci_at_exec(s: &Vec<char>, i: usize, word: &Vec<char>) -> (r: bool)
    ensures
        r == occurs_ci_at(s@, i as int, word@),
{
    if word.len() > s.len() || i > s.len() - word.len() {
        return false;
    }
    let mut k: usize = 0;
    while k < word.len()
        invariant
            i + word.len() <= s.len(),
            k <= word.len(),
            forall|j: int| 0 <= j < k ==> same_char_ci(#[trigger] s@[i + j], word@[j]),
        decreases word.len() - k,
    {
        if fold_case_exec(s[i + k]) != fold_case_exec(word[k]) {
            return false;
        }
        k = k + 1;
    }
    true
}

/// Whether `word` occurs in `s` at position `i`.
pub fn occurs_at_exec(s: &Vec<char>, i: usize, word: &Vec<char>) -> (r: bool)
    ensures
        r == occurs_at(s@, i as int, word@),
{
    if word.len() > s.len() || i > s.len() - word.len() {
        return false;
    }
    let mut k: usize = 0;
    while k < word.len()
        invariant
            i + word.len() <= s.len(),
            k <= word.len(),
            forall|j: int| 0 <= j < k ==> #[trigger] s@[i + j] == word@[j],
        decreases word.len() - k,
    {
        if s[i + k] != word[k] {
            return false;
        }
        k = k + 1;
    }
    true
}

/// Whether `word` occurs anywhere in `s`.
pub fn contains_exec(s: &Vec<char>, word: &Vec<char>) -> (r: bool)
    ensures
        r == contains(s@, word@),
{
    if word.len() > s.len() {
        return false;
    }
    let last = s.len() - word.len();
    let mut i: usize = 0;
    while i <= last
        invariant
            last == s.len() - word.len(),
            forall|j: int| 0 <= j < i ==> !occurs_at(s@, j, word@),
        decreases last + 1 - i,
    {
        if occurs_at_exec(s, i, word) {
            return true;
        }
        i = i + 1;
    }
    false
}

/// Whether `s` ends with `word`.
pub fn ends_with_exec(s: &Vec<char>, word: &Vec<char>) -> (r: bool)
    ensures
        r == ends_with(s@, word@),
{
    if word.len() > s.len() {
        return false;
    }
    occurs_at_exec(s, s.len() - word.len(), word)
}

/// `s` with each occurrence of `word` removed, ignoring ASCII letter case.
pub fn remove_ci_exec(s: &str, word: &Vec<char>) -> (r: String)
    ensures
        r@ == remove_ci(s@, word@),
{
    let chars = chars_of(s);
    let n = chars.len();
    let mut out = String::new();
    let mut run_start: usize = 0;
    let mut i: usize = 0;
    while i < n
        invariant
            n == s@.len(),
            chars@ == s@,
            run_start <= i <= n,
            out@ + s@.subrange(run_start as int, i as int) + remove_ci_from(s@, word@, i as int)
                == remove_ci(s@, word@),
        decreases n - i,
    {
        if word.len() > 0 && occurs_ci_at_exec(&chars, i, word) {
            let run = s.substring_char(run_start, i);
            out.append(run);
            i = i + word.len();
            run_start = i;
        } else {
            proof {
                assert(s@.subrange(run_start as int, i + 1) == s@.subrange(run_start as int, i as int)
                    + seq![s@[i as int]]);
            }
            i = i + 1;
        }
    }
    let run = s.substring_char(run_start, n);
    out.append(run);
    out
}

/// The position of the last `/` before position `i` of `s`, or -1.
pub open spec fn last_slash(s: Seq<char>, i: int) -> int
    decreases i,
{
    if i <= 0 {
        -1
    } else if s[i - 1] == '/' {
        i - 1
    } else {
        last_slash(s, i - 1)
    }
}

pub proof fn lemma_last_slash_bounds(s: Seq<char>, i: int)
    ensures
        -1 <= last_slash(s, i) < if i > 0 { i } else { 0 },
    decreases i,
{
    if i > 0 && s[i - 1] != '/' {
        lemma_last_slash_bounds(s, i - 1);
    }
}

/// The position just after the last `/` of `s`, or 0.
pub fn after_last_slash(s: &Vec<char>) -> (r: usize)
    ensures
        r == last_slash(s@, s@.len() as int) + 1,
        r <= s@.len(),
{
    let mut i: usize = s.len();
    while i > 0 && s[i - 1] != '/'
        invariant
            i <= s@.len(),
            last_slash(s@, s@.len() as int) == last_slash(s@, i as int),
        decreases i,
    {
        i = i - 1;
    }
    proof {
        lemma_last_slash_bounds(s@, s@.len() as int);
    }
    i
}

/// No `/` lies after the last one.
pub proof fn lemma_no_slash_after_last(s: Seq<char>, i: int)
    requires
        0 <= i <= s.len(),
    ensures
        forall|k: int| last_slash(s, i) < k < i ==> s[k] != '/',
    decreases i,
{
    if i > 0 && s[i - 1] != '/' {
        lemma_no_slash_after_last(s, i - 1);
    }
}

/// The last `/` before `i` is the last one before `j` where none lies between.
pub proof fn lemma_last_slash_skips(s: Seq<char>, j: int, i: int)
    requires
        0 <= j <= i <= s.len(),
        forall|k: int| j <= k < i ==> s[k] != '/',
    ensures
        last_slash(s, i) == last_slash(s, j),
    decreases i - j,
{
    if i > j {
        lemma_last_slash_skips(s, j, i - 1);
    }
}

/// The part of a `/`-separated path before its last `/`; empty where there
/// is none.
pub open spec fn parent_of(path: Seq<char>) -> Seq<char> {
    let k = last_slash(path, path.len() as int);
    if k < 0 {
        Seq::empty()
    } else {
        path.subrange(0, k)
    }
}

/// The part of a `/`-separated path before its last `/`; empty where there
/// is none.
pub fn parent_dir(path: &str) -> (r: String)
    ensures
        r@ == parent_of(path@),
{
    let chars = chars_of(path);
    let start = after_last_slash(&chars);
    if start > 0 {
        String::from_str(path.substring_char(0, start - 1))
    } else {
        String::new()
    }
}

/// The parent of `dir/name` is `dir` where `name` holds no `/`.
pub proof fn lemma_parent_of_join(dir: Seq<char>, name: Seq<char>)
    requires
        forall|k: int| 0 <= k < name.len() ==> name[k] != '/',
    ensures
        parent_of(dir + seq!['/'] + name) == dir,
{
    let s = dir + seq!['/'] + name;
    assert forall|k: int| dir.len() + 1 <= k < s.len() implies s[k] != '/' by {
        assert(s[k] == name[k - dir.len() - 1]);
    }
    lemma_last_slash_skips(s, dir.len() + 1 as int, s.len() as int);
    assert(s[dir.len() as int] == '/');
    assert(last_slash(s, dir.len() + 1 as int) == dir.len());
    assert(s.subrange(0, dir.len() as int) =~= dir);
}

} // verus!
