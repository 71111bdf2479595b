//! Character-level text utilities: ASCII case folding, digit and whitespace
//! classification, case-insensitive pattern matching and decimal digit runs.
//!
//! Every rule of the device dialect is built from these primitives.  Each
//! executable function is proved equal to a specification function over
//! `Seq<char>`, so the grammar in the rest of the crate can be stated purely
//! over sequences of characters.

use vstd::prelude::*;

verus! {

/// ASCII lower-casing of one character; characters outside `'A'..='Z'` are
/// unchanged.
pub open spec fn lower_char(c: char) -> char {
    match c {
        'A' => 'a',
        'B' => 'b',
        'C' => 'c',
        'D' => 'd',
        'E' => 'e',
        'F' => 'f',
        'G' => 'g',
        'H' => 'h',
        'I' => 'i',
        'J' => 'j',
        'K' => 'k',
        'L' => 'l',
        'M' => 'm',
        'N' => 'n',
        'O' => 'o',
        'P' => 'p',
        'Q' => 'q',
        'R' => 'r',
        'S' => 's',
        'T' => 't',
        'U' => 'u',
        'V' => 'v',
        'W' => 'w',
        'X' => 'x',
        'Y' => 'y',
        'Z' => 'z',
        _ => c,
    }
}

/// Executable ASCII lower-casing.
pub fn to_lower(c: char) -> (r: char)
    ensures
        r == lower_char(c),
{
    match c {
        'A' => 'a',
        'B' => 'b',
        'C' => 'c',
        'D' => 'd',
        'E' => 'e',
        'F' => 'f',
        'G' => 'g',
        'H' => 'h',
        'I' => 'i',
        'J' => 'j',
        'K' => 'k',
        'L' => 'l',
        'M' => 'm',
        'N' => 'n',
        'O' => 'o',
        'P' => 'p',
        'Q' => 'q',
        'R' => 'r',
        'S' => 's',
        'T' => 't',
        'U' => 'u',
        'V' => 'v',
        'W' => 'w',
        'X' => 'x',
        'Y' => 'y',
        'Z' => 'z',
        _ => c,
    }
}

/// A decimal digit `'0'..='9'`.
pub open spec fn is_digit_char(c: char) -> bool {
    48 <= c as u32 <= 57
}

/// An ASCII letter.
pub open spec fn is_letter_char(c: char) -> bool {
    (65 <= c as u32 <= 90) || (97 <= c as u32 <= 122)
}

/// Blank space inside a line: space or horizontal tab.
pub open spec fn is_ws_char(c: char) -> bool {
    c == ' ' || c == '\t'
}

/// Numeric value of a digit character.
pub open spec fn digit_val(c: char) -> int {
    c as u32 - 48
}

pub fn is_digit(c: char) -> (r: bool)
    ensures
        r == is_digit_char(c),
{
    let u = c as u32;
    48 <= u && u <= 57
}

pub fn is_letter(c: char) -> (r: bool)
    ensures
        r == is_letter_char(c),
{
    let u = c as u32;
    (65 <= u && u <= 90) || (97 <= u && u <= 122)
}

pub fn is_ws(c: char) -> (r: bool)
    ensures
        r == is_ws_char(c),
{
    c == ' ' || c == '\t'
}

pub fn digit_value(c: char) -> (r: u64)
    requires
        is_digit_char(c),
    ensures
        r == digit_val(c),
        r <= 9,
{
    (c as u32 - 48) as u64
}

/// The length of a character vector fits in `usize`, so positions just past
/// a matched pattern can be computed without overflow.
pub proof fn lemma_vec_len_bound(s: &Vec<char>)
    ensures
        s@.len() <= usize::MAX,
{
    vstd::std_specs::vec::axiom_spec_len(s);
}

/// The pattern `pat` occurs at position `i` of `s`, compared ASCII
/// case-insensitively.
pub open spec fn pat_at(s: Seq<char>, i: int, pat: Seq<char>) -> bool {
    &&& 0 <= i
    &&& i + pat.len() <= s.len()
    &&& forall|j: int| 0 <= j < pat.len() ==> lower_char(s[i + j]) == lower_char(pat[j])
}

/// Executable check for [`pat_at`].
pub fn check_pat_at(s: &Vec<char>, i: usize, pat: &str) -> (r: bool)
    requires
        i <= s@.len(),
    ensures
        r == pat_at(s@, i as int, pat@),
{
    let n = pat.unicode_len();
    if n > s.len() - i {
        return false;
    }
    let end = i + n;
    let mut p = i;
    while p < end
        invariant
            end == i + n,
            n == pat@.len(),
            i <= p <= end,
            end <= s@.len(),
            forall|k: int| 0 <= k < p - i ==> lower_char(s@[i + k]) == lower_char(pat@[k]),
        decreases end - p,
    {
        let cs = s[p];
        let cp = pat.get_char(p - i);
        if to_lower(cs) != to_lower(cp) {
            assert(!pat_at(s@, i as int, pat@)) by {
                assert(lower_char(s@[i + (p - i)]) != lower_char(pat@[p - i]));
            }
            return false;
        }
        p += 1;
    }
    true
}

/// `pat` occurs, case-insensitively, somewhere in `s[lo..hi]`.
pub open spec fn contains_ci_in(s: Seq<char>, lo: int, hi: int, pat: Seq<char>) -> bool {
    exists|k: int| lo <= k && k + pat.len() <= hi && pat_at(s, k, pat)
}

/// `pat` occurs, case-insensitively, somewhere in `s`.
pub open spec fn contains_ci(s: Seq<char>, pat: Seq<char>) -> bool {
    contains_ci_in(s, 0, s.len() as int, pat)
}

/// Executable search for [`contains_ci_in`].
pub fn find_ci_in(s: &Vec<char>, lo: usize, hi: usize, pat: &str) -> (r: bool)
    requires
        lo <= hi <= s@.len(),
    ensures
        r == contains_ci_in(s@, lo as int, hi as int, pat@),
{
    let n = pat.unicode_len();
    if n > hi - lo {
        return false;
    }
    let mut k = lo;
    while k <= hi - n
        invariant
            lo <= k,
            n <= hi - lo,
            hi <= s@.len(),
            n == pat@.len(),
            k <= hi - n + 1,
            forall|t: int| lo <= t < k ==> !pat_at(s@, t, pat@),
        decreases hi - k,
    {
        if check_pat_at(s, k, pat) {
            assert(contains_ci_in(s@, lo as int, hi as int, pat@)) by {
                assert(lo <= k as int && k as int + pat@.len() <= hi as int
                    && pat_at(s@, k as int, pat@));
            }
            return true;
        }
        k += 1;
    }
    false
}

/// Executable search for [`contains_ci`].
pub fn find_ci(s: &Vec<char>, pat: &str) -> (r: bool)
    ensures
        r == contains_ci(s@, pat@),
{
    find_ci_in(s, 0, s.len(), pat)
}

/// End of the run of blank characters starting at `i`: the first position at
/// or after `i` that is past the end of `s` or holds a non-blank character.
pub open spec fn ws_end(s: Seq<char>, i: int) -> int
    decreases s.len() - i,
{
    if 0 <= i < s.len() && is_ws_char(s[i]) {
        ws_end(s, i + 1)
    } else {
        i
    }
}

/// Executable scan for [`ws_end`].
pub fn skip_ws(s: &Vec<char>, i: usize) -> (r: usize)
    requires
        i <= s@.len(),
    ensures
        r == ws_end(s@, i as int),
        i <= r <= s@.len(),
{
    let mut j = i;
    while j < s.len() && is_ws(s[j])
        invariant
            i <= j <= s@.len(),
            ws_end(s@, i as int) == ws_end(s@, j as int),
        decreases s@.len() - j,
    {
        j += 1;
    }
    j
}

/// End of the run of decimal digits starting at `i`.
pub open spec fn digits_end(s: Seq<char>, i: int) -> int
    decreases s.len() - i,
{
    if 0 <= i < s.len() && is_digit_char(s[i]) {
        digits_end(s, i + 1)
    } else {
        i
    }
}

/// Executable scan for [`digits_end`], without reading the value.
pub fn skip_digits(s: &Vec<char>, i: usize) -> (r: usize)
    requires
        i <= s@.len(),
    ensures
        r == digits_end(s@, i as int),
        i <= r <= s@.len(),
        forall|k: int| i <= k < r ==> is_digit_char(s@[k]),
    {
    let mut j = i;
    while j < s.len() && is_digit(s[j])
        invariant
            i <= j <= s@.len(),
            digits_end(s@, i as int) == digits_end(s@, j as int),
            forall|k: int| i <= k < j ==> is_digit_char(s@[k]),
        decreases s@.len() - j,
    {
        j += 1;
    }
    j
}

/// Value of the digit run `s[i..j]` read as a decimal number.
pub open spec fn digits_val(s: Seq<char>, i: int, j: int) -> int
    decreases j - i,
{
    if i < j {
        digits_val(s, i, j - 1) * 10 + digit_val(s[j - 1])
    } else {
        0
    }
}

pub proof fn lemma_digits_val_nonneg(s: Seq<char>, i: int, j: int)
    requires
        forall|k: int| i <= k < j ==> is_digit_char(s[k]),
    ensures
        digits_val(s, i, j) >= 0,
    decreases j - i,
{
    if i < j {
        lemma_digits_val_nonneg(s, i, j - 1);
    }
}

/// End of the run of ASCII letters or digits starting at `i`.
pub open spec fn alnum_end(s: Seq<char>, i: int) -> int
    decreases s.len() - i,
{
    if 0 <= i < s.len() && (is_letter_char(s[i]) || is_digit_char(s[i])) {
        alnum_end(s, i + 1)
    } else {
        i
    }
}

/// Executable scan for [`alnum_end`].
pub fn skip_alnum(s: &Vec<char>, i: usize) -> (r: usize)
    requires
        i <= s@.len(),
    ensures
        r == alnum_end(s@, i as int),
        i <= r <= s@.len(),
{
    let mut j = i;
    while j < s.len() && (is_letter(s[j]) || is_digit(s[j]))
        invariant
            i <= j <= s@.len(),
            alnum_end(s@, i as int) == alnum_end(s@, j as int),
        decreases s@.len() - j,
    {
        j += 1;
    }
    j
}

/// End of the run of ASCII letters starting at `i`.
pub open spec fn alpha_end(s: Seq<char>, i: int) -> int
    decreases s.len() - i,
{
    if 0 <= i < s.len() && is_letter_char(s[i]) {
        alpha_end(s, i + 1)
    } else {
        i
    }
}

/// Executable scan for [`alpha_end`].
pub fn skip_alpha(s: &Vec<char>, i: usize) -> (r: usize)
    requires
        i <= s@.len(),
    ensures
        r == alpha_end(s@, i as int),
        i <= r <= s@.len(),
{
    let mut j = i;
    while j < s.len() && is_letter(s[j])
        invariant
            i <= j <= s@.len(),
            alpha_end(s@, i as int) == alpha_end(s@, j as int),
        decreases s@.len() - j,
    {
        j += 1;
    }
    j
}

/// Reads the digit run starting at `i` and coerces its value, reporting the
/// end of the run and `Some` value only when the value is at most `limit`.
pub fn scan_digits(s: &Vec<char>, i: usize, limit: u64) -> (r: (usize, Option<u64>))
    requires
        i <= s@.len(),
    ensures
        r.0 == digits_end(s@, i as int),
        i <= r.0 <= s@.len(),
        forall|k: int| i <= k < r.0 ==> is_digit_char(s@[k]),
        match r.1 {
            Some(v) => digits_val(s@, i as int, r.0 as int) <= limit && v == digits_val(
                s@,
                i as int,
                r.0 as int,
            ),
            None => digits_val(s@, i as int, r.0 as int) > limit,
        },
{
    let mut j = i;
    let mut acc: u128 = 0;
    let mut fits = true;
    while j < s.len() && is_digit(s[j])
        invariant
            i <= j <= s@.len(),
            digits_end(s@, i as int) == digits_end(s@, j as int),
            forall|k: int| i <= k < j ==> is_digit_char(s@[k]),
            fits ==> acc == digits_val(s@, i as int, j as int) && acc <= limit,
            !fits ==> digits_val(s@, i as int, j as int) > limit,
        decreases s@.len() - j,
    {
        let d = digit_value(s[j]);
        if fits {
            let next: u128 = acc * 10 + d as u128;
            assert(next == digits_val(s@, i as int, j + 1));
            if next > limit as u128 {
                fits = false;
            } else {
                acc = next;
            }
        } else {
            proof {
                lemma_digits_val_nonneg(s@, i as int, j as int);
                assert(digits_val(s@, i as int, j + 1) == digits_val(s@, i as int, j as int) * 10
                    + digit_val(s@[j as int]));
                assert(digits_val(s@, i as int, j as int) * 10 >= digits_val(
                    s@,
                    i as int,
                    j as int,
                ));
            }
        }
        j += 1;
    }
    (j, if fits { Some(acc as u64) } else { None })
}

/// Builds the character sequence of a line, so that the matching functions
/// can address it by position.
pub fn line_chars(line: &str) -> (v: Vec<char>)
    ensures
        v@ == line@,
{
    let n = line.unicode_len();
    let mut v: Vec<char> = Vec::new();
    let mut i: usize = 0;
    while i < n
        invariant
            n == line@.len(),
            i <= n,
            v@ =~= line@.subrange(0, i as int),
        decreases n - i,
    {
        v.push(line.get_char(i));
        i += 1;
    }
    proof {
        assert(v@ =~= line@);
    }
    v
}

} // verus!
