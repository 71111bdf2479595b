//! The line classifier and field extractor for the device's text dialect.
//!
//! A line is matched against an ordered set of independent, case-insensitive
//! rules; a line may satisfy several rules at once.  Each rule is defined
//! twice: as a specification function over `Seq<char>` (the grammar), and as
//! an executable scanner proved equal to it.  Rules scan left to right and
//! the first position where a rule's whole shape matches wins, as with the
//! usual leftmost-match convention for patterns.
//!
//! The recognized rules:
//!
//! * the unlicensed node header: `node [id] <n>` together with the
//!   parenthesized signal triple `(<b> bytes | <r> dBm | <q> dB)`;
//! * the licensed header: a callsign-with-suffix token `<CALL>-<n>` together
//!   with the same triple;
//! * labelled latitude / longitude decimals;
//! * a labelled satellite count;
//! * a labelled standalone callsign;
//! * a labelled fix-status token, classified by substring containment;
//! * the fallback `no fix acquired` phrase.
//!
//! Numeric coercion is tolerant: a matched number that does not fit its
//! target type leaves that field absent and never fails the whole line.

use vstd::prelude::*;

use crate::telemetry::{DataPacket, FixStatus, PacketView};
use crate::text::{
    lemma_vec_len_bound, alnum_end, alpha_end, check_pat_at, contains_ci, contains_ci_in, digit_val, digits_end,
    digits_val, find_ci, find_ci_in, is_digit_char, is_letter, is_letter_char, line_chars, pat_at,
    scan_digits, skip_alnum, skip_alpha, skip_digits, skip_ws, ws_end, digit_value,
};

verus! {

/// Reason a line yielded no partial record.
#[derive(Debug)]
pub enum ParseError {
    /// No rule recognized any field and the fix status stayed `Unknown`.
    NoMatch,
    /// A labelled number whose text cannot be read as a number at all.
    InvalidNumber(String),
}

/// Relies on `std::time::SystemTime::now` (with `duration_since` and
/// `as_millis` converting the reading to milliseconds since the Unix
/// epoch); the result depends on the wall clock, so nothing is promised of
/// it.
#[verifier::external_body]
fn system_clock_ms() -> i64 {
    match std::time::SystemTime::now().duration_since(std::time::UNIX_EPOCH) {
        Ok(d) => d.as_millis() as i64,
        Err(_) => 0,
    }
}

/// Milliseconds since the Unix epoch, read from the system clock; the
/// reading stamps each partial record's `captured_at` moment.
pub fn now_ms() -> i64 {
    system_clock_ms()
}

/// Largest integer part accepted when coercing a decimal-degrees token to
/// micro-degrees; anything larger is a coercion failure (the field is left
/// absent), exactly as a too-large satellite count is.
pub const DEC_WHOLE_LIMIT: u64 = 9000000000000;

// ---------------------------------------------------------------------------
// Signed integers and fixed-point decimals
// ---------------------------------------------------------------------------

/// Shape of a signed integer token at `k`: an optional minus sign, then at
/// least one digit.
pub open spec fn int_shape_at(s: Seq<char>, k: int) -> bool {
    let k0 = if k < s.len() && s[k] == '-' {
        k + 1
    } else {
        k
    };
    digits_end(s, k0) > k0
}

/// End of the signed integer token at `k`.
pub open spec fn int_end_at(s: Seq<char>, k: int) -> int {
    let k0 = if k < s.len() && s[k] == '-' {
        k + 1
    } else {
        k
    };
    digits_end(s, k0)
}

/// Coerced value of the signed integer token at `k`: `None` when the
/// magnitude exceeds the limit for its sign.
pub open spec fn int_val_at(s: Seq<char>, k: int, pos_limit: int, neg_limit: int) -> Option<i64> {
    let neg = k < s.len() && s[k] == '-';
    let k0 = if neg {
        k + 1
    } else {
        k
    };
    let v = digits_val(s, k0, digits_end(s, k0));
    if neg {
        if v <= neg_limit {
            Some((-v) as i64)
        } else {
            None
        }
    } else {
        if v <= pos_limit {
            Some(v as i64)
        } else {
            None
        }
    }
}

/// Reads a signed integer token at `k`; `None` when no digit follows the
/// optional sign.
fn scan_signed(s: &Vec<char>, k: usize, pos_limit: u64, neg_limit: u64) -> (r: Option<
    (usize, Option<i64>),
>)
    requires
        k <= s@.len(),
        pos_limit <= 9223372036854775807,
        neg_limit <= 9223372036854775807,
    ensures
        match r {
            Some((e, v)) => int_shape_at(s@, k as int) && e == int_end_at(s@, k as int) && k <= e
                <= s@.len() && v == int_val_at(s@, k as int, pos_limit as int, neg_limit as int),
            None => !int_shape_at(s@, k as int),
        },
{
    let mut k0 = k;
    let mut neg = false;
    if k0 < s.len() && s[k0] == '-' {
        neg = true;
        k0 = k0 + 1;
    }
    let limit = if neg {
        neg_limit
    } else {
        pos_limit
    };
    let (e, vopt) = scan_digits(s, k0, limit);
    if e == k0 {
        return None;
    }
    let v = match vopt {
        Some(m) => Some(
            if neg {
                -(m as i64)
            } else {
                m as i64
            },
        ),
        None => None,
    };
    Some((e, v))
}

/// Shape of a decimal-degrees token at `k`: an optional minus sign, at least
/// one integer digit, a dot, and at least one fraction digit.
pub open spec fn dec_shape_at(s: Seq<char>, k: int) -> bool {
    let k0 = if k < s.len() && s[k] == '-' {
        k + 1
    } else {
        k
    };
    let e1 = digits_end(s, k0);
    &&& e1 > k0
    &&& e1 < s.len()
    &&& s[e1] == '.'
    &&& digits_end(s, e1 + 1) > e1 + 1
}

/// The `t`-th of the first six fraction digits of the run `s[f0..e2]`,
/// counting from the most significant; positions past the end of the run
/// read as zero.
pub open spec fn frac_digit(s: Seq<char>, f0: int, e2: int, t: int) -> int {
    if f0 + t < e2 {
        digit_val(s[f0 + t])
    } else {
        0
    }
}

/// Micro-degree value of the fraction digit run `s[f0..e2]`: its first six
/// digits, padded on the right with zeros; digits past the sixth are
/// truncated.
pub open spec fn frac_micro(s: Seq<char>, f0: int, e2: int) -> int {
    ((((frac_digit(s, f0, e2, 0) * 10 + frac_digit(s, f0, e2, 1)) * 10 + frac_digit(s, f0, e2, 2))
        * 10 + frac_digit(s, f0, e2, 3)) * 10 + frac_digit(s, f0, e2, 4)) * 10 + frac_digit(
        s,
        f0,
        e2,
        5,
    )
}

/// Micro-degree value of the decimal token at `k` (meaningful only when
/// [`dec_shape_at`] holds): `None` when the integer part is beyond
/// [`DEC_WHOLE_LIMIT`].
pub open spec fn dec_micro_at(s: Seq<char>, k: int) -> Option<i64> {
    let neg = k < s.len() && s[k] == '-';
    let k0 = if neg {
        k + 1
    } else {
        k
    };
    let e1 = digits_end(s, k0);
    let whole = digits_val(s, k0, e1);
    if whole > DEC_WHOLE_LIMIT {
        None
    } else {
        let mag = whole * 1000000 + frac_micro(s, e1 + 1, digits_end(s, e1 + 1));
        Some(
            (if neg {
                -mag
            } else {
                mag
            }) as i64,
        )
    }
}

/// One padded fraction digit, executably.
fn frac_digit_exec(s: &Vec<char>, f0: usize, e2: usize, t: usize) -> (d: u64)
    requires
        f0 <= e2 <= s@.len(),
        forall|k: int| f0 <= k < e2 ==> is_digit_char(s@[k]),
    ensures
        d == frac_digit(s@, f0 as int, e2 as int, t as int),
        d <= 9,
{
    if t < e2 - f0 {
        digit_value(s[f0 + t])
    } else {
        0
    }
}

/// Micro-degree value of a fraction digit run, executably.
fn frac_value(s: &Vec<char>, f0: usize, e2: usize) -> (r: u64)
    requires
        f0 <= e2 <= s@.len(),
        forall|k: int| f0 <= k < e2 ==> is_digit_char(s@[k]),
    ensures
        r == frac_micro(s@, f0 as int, e2 as int),
        r <= 999999,
{
    let d0 = frac_digit_exec(s, f0, e2, 0);
    let d1 = frac_digit_exec(s, f0, e2, 1);
    let d2 = frac_digit_exec(s, f0, e2, 2);
    let d3 = frac_digit_exec(s, f0, e2, 3);
    let d4 = frac_digit_exec(s, f0, e2, 4);
    let d5 = frac_digit_exec(s, f0, e2, 5);
    ((((d0 * 10 + d1) * 10 + d2) * 10 + d3) * 10 + d4) * 10 + d5
}

/// Reads a decimal-degrees token at `k`: `None` when the shape is absent,
/// `Some(None)` when the shape matched but coercion failed.
fn scan_dec(s: &Vec<char>, k: usize) -> (r: Option<Option<i64>>)
    requires
        k <= s@.len(),
    ensures
        r == (if dec_shape_at(s@, k as int) {
            Some(dec_micro_at(s@, k as int))
        } else {
            None::<Option<i64>>
        }),
{
    let mut k0 = k;
    let mut neg = false;
    if k0 < s.len() && s[k0] == '-' {
        neg = true;
        k0 = k0 + 1;
    }
    let (e1, whole_opt) = scan_digits(s, k0, DEC_WHOLE_LIMIT);
    if e1 == k0 {
        return None;
    }
    if e1 >= s.len() || s[e1] != '.' {
        return None;
    }
    let f0 = e1 + 1;
    let e2 = skip_digits(s, f0);
    if e2 == f0 {
        return None;
    }
    match whole_opt {
        None => Some(None),
        Some(w) => {
            let frac = frac_value(s, f0, e2);
            let mag = w * 1000000 + frac;
            let v: i64 = if neg {
                -(mag as i64)
            } else {
                mag as i64
            };
            Some(Some(v))
        },
    }
}

// ---------------------------------------------------------------------------
// Rule attempts: does a given rule's shape begin at position `i`?
// ---------------------------------------------------------------------------

/// The node header rule at `i`: `node`, blanks, an optional `id`, an
/// optional separator, blanks, then the node number.  The outer option is
/// the shape; the inner is the number coerced to `u8`.
pub open spec fn node_attempt(s: Seq<char>, i: int) -> Option<Option<u8>> {
    if !pat_at(s, i, "node"@) {
        None
    } else {
        let j1 = ws_end(s, i + "node"@.len());
        let j2 = if pat_at(s, j1, "id"@) {
            ws_end(s, j1 + "id"@.len())
        } else {
            j1
        };
        let j3 = if j2 < s.len() && (s[j2] == ':' || s[j2] == '=') {
            j2 + 1
        } else {
            j2
        };
        let j4 = ws_end(s, j3);
        let e = digits_end(s, j4);
        if e == j4 {
            None
        } else if digits_val(s, j4, e) <= 255 {
            Some(Some(digits_val(s, j4, e) as u8))
        } else {
            Some(None)
        }
    }
}

fn try_node(s: &Vec<char>, i: usize) -> (r: Option<Option<u8>>)
    requires
        i <= s@.len(),
    ensures
        r == node_attempt(s@, i as int),
{
    proof {
        lemma_vec_len_bound(s);
    }
    if !check_pat_at(s, i, "node") {
        return None;
    }
    let j1 = skip_ws(s, i + "node".unicode_len());
    let j2 = if check_pat_at(s, j1, "id") {
        skip_ws(s, j1 + "id".unicode_len())
    } else {
        j1
    };
    let mut j3 = j2;
    if j3 < s.len() && (s[j3] == ':' || s[j3] == '=') {
        j3 = j3 + 1;
    }
    let j4 = skip_ws(s, j3);
    let (e, v) = scan_digits(s, j4, 255);
    if e == j4 {
        return None;
    }
    match v {
        Some(val) => Some(Some(val as u8)),
        None => Some(None),
    }
}

/// The satellite-count rule at `i`: `sat`, an optional `ellites` or `s`
/// tail, an optional `count` word, an optional separator, then the count.
pub open spec fn sat_attempt(s: Seq<char>, i: int) -> Option<Option<u8>> {
    if !pat_at(s, i, "sat"@) {
        None
    } else {
        let a = i + "sat"@.len();
        let j1 = if pat_at(s, a, "ellites"@) {
            a + "ellites"@.len()
        } else if pat_at(s, a, "s"@) {
            a + "s"@.len()
        } else {
            a
        };
        let j2 = if pat_at(s, ws_end(s, j1), "count"@) {
            ws_end(s, j1) + "count"@.len()
        } else {
            j1
        };
        let j3 = if j2 < s.len() && (s[j2] == ':' || s[j2] == '=') {
            j2 + 1
        } else {
            j2
        };
        let j4 = ws_end(s, j3);
        let e = digits_end(s, j4);
        if e == j4 {
            None
        } else if digits_val(s, j4, e) <= 255 {
            Some(Some(digits_val(s, j4, e) as u8))
        } else {
            Some(None)
        }
    }
}

fn try_sat(s: &Vec<char>, i: usize) -> (r: Option<Option<u8>>)
    requires
        i <= s@.len(),
    ensures
        r == sat_attempt(s@, i as int),
{
    proof {
        lemma_vec_len_bound(s);
    }
    if !check_pat_at(s, i, "sat") {
        return None;
    }
    let a = i + "sat".unicode_len();
    let j1 = if check_pat_at(s, a, "ellites") {
        a + "ellites".unicode_len()
    } else if check_pat_at(s, a, "s") {
        a + "s".unicode_len()
    } else {
        a
    };
    let w = skip_ws(s, j1);
    let j2 = if check_pat_at(s, w, "count") {
        w + "count".unicode_len()
    } else {
        j1
    };
    let mut j3 = j2;
    if j3 < s.len() && (s[j3] == ':' || s[j3] == '=') {
        j3 = j3 + 1;
    }
    let j4 = skip_ws(s, j3);
    let (e, v) = scan_digits(s, j4, 255);
    if e == j4 {
        return None;
    }
    match v {
        Some(val) => Some(Some(val as u8)),
        None => Some(None),
    }
}

/// The parenthesized signal triple at `i`:
/// `( <bytes> bytes | <rssi> dBm | <snr> dB )`, blanks free.  The byte count
/// is required by the shape but its value is not kept.
pub open spec fn triple_attempt(s: Seq<char>, i: int) -> Option<(Option<i16>, Option<i8>)> {
    if !(0 <= i && i < s.len() && s[i] == '(') {
        None
    } else {
        let j1 = ws_end(s, i + 1);
        let e0 = digits_end(s, j1);
        if e0 == j1 {
            None
        } else {
            let j2 = ws_end(s, e0);
            if !pat_at(s, j2, "bytes"@) {
                None
            } else {
                let j3 = ws_end(s, j2 + "bytes"@.len());
                if !(j3 < s.len() && s[j3] == '|') {
                    None
                } else {
                    let j4 = ws_end(s, j3 + 1);
                    if !int_shape_at(s, j4) {
                        None
                    } else {
                        let rssi = match int_val_at(s, j4, 32767, 32768) {
                            Some(v) => Some(v as i16),
                            None => None,
                        };
                        let j5 = ws_end(s, int_end_at(s, j4));
                        if !pat_at(s, j5, "dbm"@) {
                            None
                        } else {
                            let j6 = ws_end(s, j5 + "dbm"@.len());
                            if !(j6 < s.len() && s[j6] == '|') {
                                None
                            } else {
                                let j7 = ws_end(s, j6 + 1);
                                if !int_shape_at(s, j7) {
                                    None
                                } else {
                                    let snr = match int_val_at(s, j7, 127, 128) {
                                        Some(v) => Some(v as i8),
                                        None => None,
                                    };
                                    let j8 = ws_end(s, int_end_at(s, j7));
                                    if !pat_at(s, j8, "db"@) {
                                        None
                                    } else {
                                        let j9 = ws_end(s, j8 + "db"@.len());
                                        if !(j9 < s.len() && s[j9] == ')') {
                                            None
                                        } else {
                                            Some((rssi, snr))
                                        }
                                    }
                                }
                            }
                        }
                    }
                }
            }
        }
    }
}

fn try_triple(s: &Vec<char>, i: usize) -> (r: Option<(Option<i16>, Option<i8>)>)
    requires
        i <= s@.len(),
    ensures
        r == triple_attempt(s@, i as int),
{
    proof {
        lemma_vec_len_bound(s);
    }
    if !(i < s.len() && s[i] == '(') {
        return None;
    }
    let j1 = skip_ws(s, i + 1);
    let e0 = skip_digits(s, j1);
    if e0 == j1 {
        return None;
    }
    let j2 = skip_ws(s, e0);
    if !check_pat_at(s, j2, "bytes") {
        return None;
    }
    let j3 = skip_ws(s, j2 + "bytes".unicode_len());
    if !(j3 < s.len() && s[j3] == '|') {
        return None;
    }
    let j4 = skip_ws(s, j3 + 1);
    let rs = scan_signed(s, j4, 32767, 32768);
    if rs.is_none() {
        return None;
    }
    let (e1, rssi64) = rs.unwrap();
    let rssi: Option<i16> = match rssi64 {
        Some(v) => Some(v as i16),
        None => None,
    };
    let j5 = skip_ws(s, e1);
    if !check_pat_at(s, j5, "dbm") {
        return None;
    }
    let j6 = skip_ws(s, j5 + "dbm".unicode_len());
    if !(j6 < s.len() && s[j6] == '|') {
        return None;
    }
    let j7 = skip_ws(s, j6 + 1);
    let qs = scan_signed(s, j7, 127, 128);
    if qs.is_none() {
        return None;
    }
    let (e2, snr64) = qs.unwrap();
    let snr: Option<i8> = match snr64 {
        Some(v) => Some(v as i8),
        None => None,
    };
    let j8 = skip_ws(s, e2);
    if !check_pat_at(s, j8, "db") {
        return None;
    }
    let j9 = skip_ws(s, j8 + "db".unicode_len());
    if !(j9 < s.len() && s[j9] == ')') {
        return None;
    }
    Some((rssi, snr))
}

/// The licensed header token at `i`: a callsign (letters and digits,
/// beginning with a letter), a dash, and the node number.  Yields the end of
/// the callsign and the coerced node number.
pub open spec fn cs_attempt(s: Seq<char>, i: int) -> Option<(int, Option<u8>)> {
    if !(0 <= i && i < s.len() && is_letter_char(s[i])) {
        None
    } else {
        let e = alnum_end(s, i);
        if !(e < s.len() && s[e] == '-') {
            None
        } else {
            let d1 = digits_end(s, e + 1);
            if d1 == e + 1 {
                None
            } else if digits_val(s, e + 1, d1) <= 255 {
                Some((e, Some(digits_val(s, e + 1, d1) as u8)))
            } else {
                Some((e, None))
            }
        }
    }
}

fn try_cs(s: &Vec<char>, i: usize) -> (r: Option<(usize, Option<u8>)>)
    requires
        i <= s@.len(),
    ensures
        match r {
            Some((e, v)) => cs_attempt(s@, i as int) == Some((e as int, v)) && i <= e <= s@.len(),
            None => cs_attempt(s@, i as int) is None,
        },
{
    proof {
        lemma_vec_len_bound(s);
    }
    if !(i < s.len() && is_letter(s[i])) {
        return None;
    }
    let e = skip_alnum(s, i);
    if !(e < s.len() && s[e] == '-') {
        return None;
    }
    let (d1, v) = scan_digits(s, e + 1, 255);
    if d1 == e + 1 {
        return None;
    }
    match v {
        Some(val) => Some((e, Some(val as u8))),
        None => Some((e, None)),
    }
}

/// The standalone callsign rule at `i`: the `callsign` label, an optional
/// separator, blanks, then a token beginning with a letter.  Yields the
/// token's range.
pub open spec fn callsign_attempt(s: Seq<char>, i: int) -> Option<(int, int)> {
    if !pat_at(s, i, "callsign"@) {
        None
    } else {
        let a = i + "callsign"@.len();
        let j1 = if a < s.len() && (s[a] == ':' || s[a] == '=') {
            a + 1
        } else {
            a
        };
        let j2 = ws_end(s, j1);
        if !(j2 < s.len() && is_letter_char(s[j2])) {
            None
        } else {
            Some((j2, alnum_end(s, j2)))
        }
    }
}

fn try_callsign(s: &Vec<char>, i: usize) -> (r: Option<(usize, usize)>)
    requires
        i <= s@.len(),
    ensures
        match r {
            Some((lo, hi)) => callsign_attempt(s@, i as int) == Some((lo as int, hi as int)) && lo
                <= hi <= s@.len(),
            None => callsign_attempt(s@, i as int) is None,
        },
{
    proof {
        lemma_vec_len_bound(s);
    }
    if !check_pat_at(s, i, "callsign") {
        return None;
    }
    let a = i + "callsign".unicode_len();
    let mut j1 = a;
    if j1 < s.len() && (s[j1] == ':' || s[j1] == '=') {
        j1 = j1 + 1;
    }
    let j2 = skip_ws(s, j1);
    if !(j2 < s.len() && is_letter(s[j2])) {
        return None;
    }
    let hi = skip_alnum(s, j2);
    Some((j2, hi))
}

/// The fix-status rule at `i`: `fix`, blanks, `status`, an optional
/// separator, blanks, then a non-empty run of letters — the status token,
/// whose range is yielded.
pub open spec fn fix_attempt(s: Seq<char>, i: int) -> Option<(int, int)> {
    if !pat_at(s, i, "fix"@) {
        None
    } else {
        let j1 = ws_end(s, i + "fix"@.len());
        if !pat_at(s, j1, "status"@) {
            None
        } else {
            let a = j1 + "status"@.len();
            let j2 = if a < s.len() && (s[a] == ':' || s[a] == '=') {
                a + 1
            } else {
                a
            };
            let j3 = ws_end(s, j2);
            let e = alpha_end(s, j3);
            if e == j3 {
                None
            } else {
                Some((j3, e))
            }
        }
    }
}

fn try_fix(s: &Vec<char>, i: usize) -> (r: Option<(usize, usize)>)
    requires
        i <= s@.len(),
    ensures
        match r {
            Some((lo, hi)) => fix_attempt(s@, i as int) == Some((lo as int, hi as int)) && lo <= hi
                <= s@.len(),
            None => fix_attempt(s@, i as int) is None,
        },
{
    proof {
        lemma_vec_len_bound(s);
    }
    if !check_pat_at(s, i, "fix") {
        return None;
    }
    let j1 = skip_ws(s, i + "fix".unicode_len());
    if !check_pat_at(s, j1, "status") {
        return None;
    }
    let a = j1 + "status".unicode_len();
    let mut j2 = a;
    if j2 < s.len() && (s[j2] == ':' || s[j2] == '=') {
        j2 = j2 + 1;
    }
    let j3 = skip_ws(s, j2);
    let e = skip_alpha(s, j3);
    if e == j3 {
        return None;
    }
    Some((j3, e))
}

/// The packet-end label at `i`: `fix`, blanks, `status`, with or without a
/// token after it.
pub open spec fn fix_label_at(s: Seq<char>, i: int) -> bool {
    pat_at(s, i, "fix"@) && pat_at(s, ws_end(s, i + "fix"@.len()), "status"@)
}

fn try_fix_label(s: &Vec<char>, i: usize) -> (r: bool)
    requires
        i <= s@.len(),
    ensures
        r == fix_label_at(s@, i as int),
{
    proof {
        lemma_vec_len_bound(s);
    }
    if !check_pat_at(s, i, "fix") {
        return false;
    }
    let j1 = skip_ws(s, i + "fix".unicode_len());
    check_pat_at(s, j1, "status")
}

/// The labelled decimal rule at `i` (latitude or longitude): the short
/// label, its optional long tail, an optional separator, blanks, then a
/// decimal token.
pub open spec fn label_dec_attempt(s: Seq<char>, i: int, short: Seq<char>, tail: Seq<char>) -> Option<
    Option<i64>,
> {
    if !pat_at(s, i, short) {
        None
    } else {
        let a = i + short.len();
        let j1 = if pat_at(s, a, tail) {
            a + tail.len()
        } else {
            a
        };
        let j2 = if j1 < s.len() && (s[j1] == ':' || s[j1] == '=') {
            j1 + 1
        } else {
            j1
        };
        let j3 = ws_end(s, j2);
        if dec_shape_at(s, j3) {
            Some(dec_micro_at(s, j3))
        } else {
            None
        }
    }
}

fn try_label_dec(s: &Vec<char>, i: usize, short: &str, tail: &str) -> (r: Option<Option<i64>>)
    requires
        i <= s@.len(),
    ensures
        r == label_dec_attempt(s@, i as int, short@, tail@),
{
    proof {
        lemma_vec_len_bound(s);
    }
    if !check_pat_at(s, i, short) {
        return None;
    }
    let a = i + short.unicode_len();
    let j1 = if check_pat_at(s, a, tail) {
        a + tail.unicode_len()
    } else {
        a
    };
    let mut j2 = j1;
    if j2 < s.len() && (s[j2] == ':' || s[j2] == '=') {
        j2 = j2 + 1;
    }
    let j3 = skip_ws(s, j2);
    scan_dec(s, j3)
}

// ---------------------------------------------------------------------------
// First-match scans: the leftmost position where a rule's shape holds wins
// ---------------------------------------------------------------------------

/// First match of the node header rule at or after `i`.
pub open spec fn node_first(s: Seq<char>, i: int) -> Option<Option<u8>>
    decreases s.len() - i,
{
    if i >= s.len() {
        None
    } else if node_attempt(s, i) is Some {
        node_attempt(s, i)
    } else {
        node_first(s, i + 1)
    }
}

fn scan_node_rule(s: &Vec<char>) -> (r: Option<Option<u8>>)
    ensures
        r == node_first(s@, 0),
{
    let mut i: usize = 0;
    while i < s.len()
        invariant
            i <= s@.len(),
            node_first(s@, 0) == node_first(s@, i as int),
        decreases s@.len() - i,
    {
        let a = try_node(s, i);
        if a.is_some() {
            return a;
        }
        i = i + 1;
    }
    None
}

/// First match of the satellite-count rule at or after `i`.
pub open spec fn sat_first(s: Seq<char>, i: int) -> Option<Option<u8>>
    decreases s.len() - i,
{
    if i >= s.len() {
        None
    } else if sat_attempt(s, i) is Some {
        sat_attempt(s, i)
    } else {
        sat_first(s, i + 1)
    }
}

fn scan_sat_rule(s: &Vec<char>) -> (r: Option<Option<u8>>)
    ensures
        r == sat_first(s@, 0),
{
    let mut i: usize = 0;
    while i < s.len()
        invariant
            i <= s@.len(),
            sat_first(s@, 0) == sat_first(s@, i as int),
        decreases s@.len() - i,
    {
        let a = try_sat(s, i);
        if a.is_some() {
            return a;
        }
        i = i + 1;
    }
    None
}

/// First match of the signal triple at or after `i`.
pub open spec fn triple_first(s: Seq<char>, i: int) -> Option<(Option<i16>, Option<i8>)>
    decreases s.len() - i,
{
    if i >= s.len() {
        None
    } else if triple_attempt(s, i) is Some {
        triple_attempt(s, i)
    } else {
        triple_first(s, i + 1)
    }
}

fn scan_triple_rule(s: &Vec<char>) -> (r: Option<(Option<i16>, Option<i8>)>)
    ensures
        r == triple_first(s@, 0),
{
    let mut i: usize = 0;
    while i < s.len()
        invariant
            i <= s@.len(),
            triple_first(s@, 0) == triple_first(s@, i as int),
        decreases s@.len() - i,
    {
        let a = try_triple(s, i);
        if a.is_some() {
            return a;
        }
        i = i + 1;
    }
    None
}

/// First match of the licensed header token at or after `i`: the callsign
/// range and the coerced node number.
pub open spec fn cs_first(s: Seq<char>, i: int) -> Option<(int, int, Option<u8>)>
    decreases s.len() - i,
{
    if i >= s.len() {
        None
    } else {
        match cs_attempt(s, i) {
            Some((e, v)) => Some((i, e, v)),
            None => cs_first(s, i + 1),
        }
    }
}

fn scan_cs_rule(s: &Vec<char>) -> (r: Option<(usize, usize, Option<u8>)>)
    ensures
        match r {
            Some((lo, hi, v)) => cs_first(s@, 0) == Some((lo as int, hi as int, v)) && lo <= hi
                <= s@.len(),
            None => cs_first(s@, 0) is None,
        },
{
    let mut i: usize = 0;
    while i < s.len()
        invariant
            i <= s@.len(),
            cs_first(s@, 0) == cs_first(s@, i as int),
        decreases s@.len() - i,
    {
        let a = try_cs(s, i);
        match a {
            Some((e, v)) => {
                return Some((i, e, v));
            },
            None => {},
        }
        i = i + 1;
    }
    None
}

/// First match of the standalone callsign rule at or after `i`: the token's
/// range.
pub open spec fn callsign_first(s: Seq<char>, i: int) -> Option<(int, int)>
    decreases s.len() - i,
{
    if i >= s.len() {
        None
    } else if callsign_attempt(s, i) is Some {
        callsign_attempt(s, i)
    } else {
        callsign_first(s, i + 1)
    }
}

fn scan_callsign_rule(s: &Vec<char>) -> (r: Option<(usize, usize)>)
    ensures
        match r {
            Some((lo, hi)) => callsign_first(s@, 0) == Some((lo as int, hi as int)) && lo <= hi
                <= s@.len(),
            None => callsign_first(s@, 0) is None,
        },
{
    let mut i: usize = 0;
    while i < s.len()
        invariant
            i <= s@.len(),
            callsign_first(s@, 0) == callsign_first(s@, i as int),
        decreases s@.len() - i,
    {
        let a = try_callsign(s, i);
        if a.is_some() {
            return a;
        }
        i = i + 1;
    }
    None
}

/// First match of the fix-status rule at or after `i`: the status token's
/// range.
pub open spec fn fix_first(s: Seq<char>, i: int) -> Option<(int, int)>
    decreases s.len() - i,
{
    if i >= s.len() {
        None
    } else if fix_attempt(s, i) is Some {
        fix_attempt(s, i)
    } else {
        fix_first(s, i + 1)
    }
}

fn scan_fix_rule(s: &Vec<char>) -> (r: Option<(usize, usize)>)
    ensures
        match r {
            Some((lo, hi)) => fix_first(s@, 0) == Some((lo as int, hi as int)) && lo <= hi
                <= s@.len(),
            None => fix_first(s@, 0) is None,
        },
{
    let mut i: usize = 0;
    while i < s.len()
        invariant
            i <= s@.len(),
            fix_first(s@, 0) == fix_first(s@, i as int),
        decreases s@.len() - i,
    {
        let a = try_fix(s, i);
        if a.is_some() {
            return a;
        }
        i = i + 1;
    }
    None
}

/// The packet-end label occurs at or after `i`.
pub open spec fn fix_label_present(s: Seq<char>, i: int) -> bool
    decreases s.len() - i,
{
    if i >= s.len() {
        false
    } else if fix_label_at(s, i) {
        true
    } else {
        fix_label_present(s, i + 1)
    }
}

fn scan_fix_label(s: &Vec<char>) -> (r: bool)
    ensures
        r == fix_label_present(s@, 0),
{
    let mut i: usize = 0;
    while i < s.len()
        invariant
            i <= s@.len(),
            fix_label_present(s@, 0) == fix_label_present(s@, i as int),
        decreases s@.len() - i,
    {
        if try_fix_label(s, i) {
            return true;
        }
        i = i + 1;
    }
    false
}

/// First match of a labelled decimal rule at or after `i`.
pub open spec fn label_dec_first(s: Seq<char>, i: int, short: Seq<char>, tail: Seq<char>) -> Option<
    Option<i64>,
>
    decreases s.len() - i,
{
    if i >= s.len() {
        None
    } else if label_dec_attempt(s, i, short, tail) is Some {
        label_dec_attempt(s, i, short, tail)
    } else {
        label_dec_first(s, i + 1, short, tail)
    }
}

fn scan_label_dec_rule(s: &Vec<char>, short: &str, tail: &str) -> (r: Option<Option<i64>>)
    ensures
        r == label_dec_first(s@, 0, short@, tail@),
{
    let mut i: usize = 0;
    while i < s.len()
        invariant
            i <= s@.len(),
            label_dec_first(s@, 0, short@, tail@) == label_dec_first(s@, i as int, short@, tail@),
        decreases s@.len() - i,
    {
        let a = try_label_dec(s, i, short, tail);
        if a.is_some() {
            return a;
        }
        i = i + 1;
    }
    None
}

// ---------------------------------------------------------------------------
// The extracted fields of one line
// ---------------------------------------------------------------------------

/// The unlicensed header matched: a node token and a signal triple both
/// occur in the line.
pub open spec fn spec_header_a(s: Seq<char>) -> bool {
    node_first(s, 0) is Some && triple_first(s, 0) is Some
}

/// The licensed header matched: no unlicensed header, but a
/// callsign-with-suffix token and a signal triple both occur.
pub open spec fn spec_header_b(s: Seq<char>) -> bool {
    &&& !spec_header_a(s)
    &&& cs_first(s, 0) is Some
    &&& triple_first(s, 0) is Some
}

/// A line starts a packet exactly when one of the two header shapes matched;
/// this is purely structural and independent of what extraction yields.
pub open spec fn spec_is_packet_start(s: Seq<char>) -> bool {
    spec_header_a(s) || spec_header_b(s)
}

/// A line ends a packet exactly when it carries a fix-status label or the
/// no-fix phrase; also purely structural.
pub open spec fn spec_is_packet_end(s: Seq<char>) -> bool {
    fix_label_present(s, 0) || contains_ci(s, "no fix acquired"@)
}

/// The node identifier extracted from a line.
pub open spec fn spec_node_id(s: Seq<char>) -> Option<u8> {
    if spec_header_a(s) {
        match node_first(s, 0) {
            Some(v) => v,
            None => None,
        }
    } else if spec_header_b(s) {
        match cs_first(s, 0) {
            Some((_lo, _hi, v)) => v,
            None => None,
        }
    } else {
        None
    }
}

/// The signal strength extracted from a line: only a header line carries
/// one.
pub open spec fn spec_rssi(s: Seq<char>) -> Option<i16> {
    if spec_is_packet_start(s) {
        match triple_first(s, 0) {
            Some((r, _q)) => r,
            None => None,
        }
    } else {
        None
    }
}

/// The signal quality extracted from a line: only a header line carries
/// one.
pub open spec fn spec_snr(s: Seq<char>) -> Option<i8> {
    if spec_is_packet_start(s) {
        match triple_first(s, 0) {
            Some((_r, q)) => q,
            None => None,
        }
    } else {
        None
    }
}

/// The callsign extracted from a line: a licensed header's token, else a
/// standalone labelled callsign.
pub open spec fn spec_callsign(s: Seq<char>) -> Option<Seq<char>> {
    if spec_header_b(s) {
        match cs_first(s, 0) {
            Some((lo, hi, _v)) => Some(s.subrange(lo, hi)),
            None => None,
        }
    } else {
        match callsign_first(s, 0) {
            Some((lo, hi)) => Some(s.subrange(lo, hi)),
            None => None,
        }
    }
}

/// The latitude extracted from a line, in micro-degrees.
pub open spec fn spec_latitude(s: Seq<char>) -> Option<i64> {
    match label_dec_first(s, 0, "lat"@, "itude"@) {
        Some(v) => v,
        None => None,
    }
}

/// The longitude extracted from a line, in micro-degrees.
pub open spec fn spec_longitude(s: Seq<char>) -> Option<i64> {
    match label_dec_first(s, 0, "lon"@, "gitude"@) {
        Some(v) => v,
        None => None,
    }
}

/// The satellite count extracted from a line.
pub open spec fn spec_satellites(s: Seq<char>) -> Option<u8> {
    match sat_first(s, 0) {
        Some(v) => v,
        None => None,
    }
}

/// Fix classification of a status token by substring containment, in fixed
/// priority order.
pub open spec fn classify_token(s: Seq<char>, lo: int, hi: int) -> FixStatus {
    if contains_ci_in(s, lo, hi, "no"@) {
        FixStatus::NoFix
    } else if contains_ci_in(s, lo, hi, "diff"@) {
        FixStatus::Differential
    } else if contains_ci_in(s, lo, hi, "est"@) {
        FixStatus::Estimated
    } else if contains_ci_in(s, lo, hi, "fix"@) {
        FixStatus::Fix
    } else {
        FixStatus::Unknown
    }
}

/// The fix status extracted from a line: the classified token of the
/// fix-status rule, else `NoFix` when the no-fix phrase occurs, else
/// `Unknown`.
pub open spec fn spec_fix_status(s: Seq<char>) -> FixStatus {
    match fix_first(s, 0) {
        Some((lo, hi)) => classify_token(s, lo, hi),
        None => if contains_ci(s, "no fix acquired"@) {
            FixStatus::NoFix
        } else {
            FixStatus::Unknown
        },
    }
}

/// A line is meaningful when extraction populated at least one field or
/// moved the fix status off `Unknown`.
pub open spec fn spec_is_meaningful(s: Seq<char>) -> bool {
    ||| spec_node_id(s) is Some
    ||| spec_callsign(s) is Some
    ||| spec_latitude(s) is Some
    ||| spec_longitude(s) is Some
    ||| spec_satellites(s) is Some
    ||| spec_rssi(s) is Some
    ||| spec_snr(s) is Some
    ||| spec_fix_status(s) != FixStatus::Unknown
}

/// The partial record a meaningful line yields, stamped with the clock
/// reading `now`.
pub open spec fn spec_partial(s: Seq<char>, now: i64) -> PacketView {
    PacketView {
        node_id: spec_node_id(s),
        callsign: spec_callsign(s),
        latitude_udeg: spec_latitude(s),
        longitude_udeg: spec_longitude(s),
        satellites_count: spec_satellites(s),
        receiver_rssi: spec_rssi(s),
        receiver_snr: spec_snr(s),
        fix_status: spec_fix_status(s),
        timestamp_ms: now,
        raw_lines: seq![s],
    }
}

/// Executable fix classification of a token range.
fn classify_status(s: &Vec<char>, lo: usize, hi: usize) -> (st: FixStatus)
    requires
        lo <= hi <= s@.len(),
    ensures
        st == classify_token(s@, lo as int, hi as int),
{
    if find_ci_in(s, lo, hi, "no") {
        FixStatus::NoFix
    } else if find_ci_in(s, lo, hi, "diff") {
        FixStatus::Differential
    } else if find_ci_in(s, lo, hi, "est") {
        FixStatus::Estimated
    } else if find_ci_in(s, lo, hi, "fix") {
        FixStatus::Fix
    } else {
        FixStatus::Unknown
    }
}

/// Structural packet-boundary classification of a line's characters,
/// determined by the line alone.
pub fn classify_line(s: &Vec<char>) -> (r: (bool, bool))
    ensures
        r.0 == spec_is_packet_start(s@),
        r.1 == spec_is_packet_end(s@),
{
    let start = if scan_triple_rule(s).is_none() {
        false
    } else if scan_node_rule(s).is_some() {
        true
    } else {
        scan_cs_rule(s).is_some()
    };
    let end = if scan_fix_label(s) {
        true
    } else {
        find_ci(s, "no fix acquired")
    };
    (start, end)
}

/// Extracts every recognized field of one line into a partial record
/// stamped with the clock reading `now`; reports `NoMatch` when nothing was
/// recognized.
pub fn parse_zephyr_line_at(line: &str, now: i64) -> (r: Result<DataPacket, ParseError>)
    ensures
        match r {
            Ok(p) => spec_is_meaningful(line@) && p@ == spec_partial(line@, now),
            Err(e) => !spec_is_meaningful(line@) && e is NoMatch,
        },
{
    let s = line_chars(line);
    let node_part = scan_node_rule(&s);
    let triple = scan_triple_rule(&s);
    let cs_part = scan_cs_rule(&s);
    let header_a = node_part.is_some() && triple.is_some();
    let header_b = !header_a && cs_part.is_some() && triple.is_some();

    let node_id: Option<u8> = if header_a {
        node_part.unwrap()
    } else if header_b {
        let (_lo, _hi, v) = cs_part.unwrap();
        v
    } else {
        None
    };

    let (receiver_rssi, receiver_snr): (Option<i16>, Option<i8>) = if header_a || header_b {
        triple.unwrap()
    } else {
        (None, None)
    };

    let callsign: Option<String> = if header_b {
        let (lo, hi, _v) = cs_part.unwrap();
        Some(line.substring_char(lo, hi).to_owned())
    } else {
        match scan_callsign_rule(&s) {
            Some((lo, hi)) => Some(line.substring_char(lo, hi).to_owned()),
            None => None,
        }
    };

    let latitude_udeg: Option<i64> = match scan_label_dec_rule(&s, "lat", "itude") {
        Some(v) => v,
        None => None,
    };
    let longitude_udeg: Option<i64> = match scan_label_dec_rule(&s, "lon", "gitude") {
        Some(v) => v,
        None => None,
    };
    let satellites_count: Option<u8> = match scan_sat_rule(&s) {
        Some(v) => v,
        None => None,
    };

    let fix_status = match scan_fix_rule(&s) {
        Some((lo, hi)) => classify_status(&s, lo, hi),
        None => if find_ci(&s, "no fix acquired") {
            FixStatus::NoFix
        } else {
            FixStatus::Unknown
        },
    };

    let meaningful = node_id.is_some() || callsign.is_some() || latitude_udeg.is_some()
        || longitude_udeg.is_some() || satellites_count.is_some() || receiver_rssi.is_some()
        || receiver_snr.is_some() || fix_status != FixStatus::Unknown;

    if meaningful {
        let mut raw_lines: Vec<String> = Vec::new();
        raw_lines.push(line.to_owned());
        let p = DataPacket {
            node_id,
            callsign,
            latitude_udeg,
            longitude_udeg,
            satellites_count,
            receiver_rssi,
            receiver_snr,
            fix_status,
            timestamp_ms: now,
            raw_lines,
        };
        proof {
            assert(p@.raw_lines =~= seq![line@]);
            assert(p@ =~= spec_partial(line@, now));
        }
        Ok(p)
    } else {
        Err(ParseError::NoMatch)
    }
}

/// Extracts the fields of one line, stamping the record with the current
/// clock; the fields are exactly those of [`spec_partial`] for some clock
/// reading.
pub fn parse_zephyr_line(line: &str) -> (r: Result<DataPacket, ParseError>)
    ensures
        match r {
            Ok(p) => spec_is_meaningful(line@) && exists|now: i64| p@ == spec_partial(line@, now),
            Err(e) => !spec_is_meaningful(line@) && e is NoMatch,
        },
{
    let now = now_ms();
    let r = parse_zephyr_line_at(line, now);
    proof {
        match r {
            Ok(ref p) => {
                assert(p@ == spec_partial(line@, now));
            },
            Err(_) => {},
        }
    }
    r
}

} // verus!
