//! Filename and release-title parser: extracts episode numbers, season
//! numbers, release groups and quality tokens from a single title string,
//! using an ordered cascade of narrow patterns where the first in-range
//! match wins. The cascade order is part of the contract: every pattern is
//! specified exactly, and each parser returns precisely the value of its
//! specification.

use vstd::prelude::*;

use crate::text::{
    char_is_digit, char_is_wspace, chars_to_string, ci_kw_at, cs_lit_at, digit_run,
    digit_run_at, digits_val, digits_value_at, ends_with, ends_with_ex, is_digit,
    is_wspace, join_char, join_runs, kw_at, lemma_digit_run_in_bounds, lemma_digits_val_bound,
    lemma_pow10_mono, pow10,
    lit_at, lower_char, lower_seq, lower_vec, run_len, run_len_at, runs_from, split_runs,
    to_chars, to_lower_char, wa, wa_at, wb, wb_at, CharClass,
};

verus! {

// ---------------------------------------------------------------------------
// Episode patterns, in cascade order
// ---------------------------------------------------------------------------

/// The ordered episode patterns of the cascade. Apart from `Leading`,
/// which is anchored at the start of the string, each is searched for at
/// its leftmost occurrence.
#[derive(Clone, Copy, PartialEq, Eq, Structural)]
pub enum EpPat {
    /// `"- NN"`, an optional version suffix `vK`, then `.`/space/`[`/`(`
    /// or the end; the subgroup convention.
    Dash,
    /// `SxxEyyy`: the episode component of a combined marker.
    SeasonEp,
    /// A separator (space, `.`, `_`), a bare number, then separators
    /// running into `[`, `.` or the end.
    SepNum,
    /// A bare leading number followed by a separator after optional
    /// spaces (anchored at the start).
    Leading,
    /// `Ep`/`Episode` (an `E`/`P` pair, optionally completed by `isode`),
    /// separators, then a number.
    EpWord,
    /// `E` + digits with an optional version suffix, bounded by
    /// separators (dash allowed before, not after).
    EShort,
}

/// Tail accepted after the digits of the `Dash` pattern.
pub open spec fn e1_tail_ok(s: Seq<char>, j: int) -> bool {
    j == s.len() || (0 <= j < s.len() && (s[j] == '.' || is_wspace(s[j]) || s[j] == '[' || s[j]
        == '('))
}

pub open spec fn e1_match_at(s: Seq<char>, i: int) -> bool {
    let d = digit_run(s, i + 2);
    let j = i + 2 + d;
    &&& 0 <= i
    &&& i + 2 < s.len()
    &&& s[i] == '-'
    &&& s[i + 1] == ' '
    &&& 1 <= d <= 4
    &&& (e1_tail_ok(s, j) || (j + 2 <= s.len() && s[j] == 'v' && is_digit(s[j + 1]) && e1_tail_ok(
        s,
        j + 2,
    )))
}

pub open spec fn e2_match_at(s: Seq<char>, i: int) -> bool {
    let d = digit_run(s, i + 1);
    &&& 0 <= i
    &&& i + 1 < s.len()
    &&& (s[i] == 'S' || s[i] == 's')
    &&& 1 <= d <= 2
    &&& i + 1 + d < s.len()
    &&& (s[i + 1 + d] == 'E' || s[i + 1 + d] == 'e')
    &&& i + 2 + d < s.len()
    &&& is_digit(s[i + 2 + d])
}

pub open spec fn e3_match_at(s: Seq<char>, i: int) -> bool {
    let d = digit_run(s, i + 1);
    let j = i + 1 + d;
    let w = run_len(s, j, CharClass::SepDot);
    &&& 0 <= i
    &&& i < s.len()
    &&& (is_wspace(s[i]) || s[i] == '.' || s[i] == '_')
    &&& i + 1 < s.len()
    &&& 1 <= d <= 3
    &&& (j + w == s.len() || s[j + w] == '[' || exists|m: int| j <= m < j + w && s[m] == '.')
}

pub open spec fn e4_match(s: Seq<char>) -> bool {
    let d = digit_run(s, 0);
    let w = run_len(s, d as int, CharClass::WSpace);
    &&& 1 <= d <= 3
    &&& d + w < s.len()
    &&& (s[(d + w) as int] == '-' || s[(d + w) as int] == '.' || s[(d + w) as int] == '_')
}

/// After `Ep`/`Episode`, separators may run up to the digits.
pub open spec fn e5_rest_ok(s: Seq<char>, j: int) -> bool {
    let w = run_len(s, j, CharClass::SepDot);
    0 <= j <= s.len() && j + w < s.len() && is_digit(s[j + w])
}

pub open spec fn e5_match_at(s: Seq<char>, i: int) -> bool {
    &&& 0 <= i
    &&& i + 2 <= s.len()
    &&& (s[i] == 'E' || s[i] == 'e')
    &&& (s[i + 1] == 'P' || s[i + 1] == 'p')
    &&& ((lit_at(s, i + 2, "isode"@) && e5_rest_ok(s, i + 7)) || e5_rest_ok(s, i + 2))
}

/// Start of the digits captured by the `EpWord` pattern.
pub open spec fn e5_digit_start(s: Seq<char>, i: int) -> int {
    if lit_at(s, i + 2, "isode"@) && e5_rest_ok(s, i + 7) {
        i + 7 + run_len(s, i + 7, CharClass::SepDot)
    } else {
        i + 2 + run_len(s, i + 2, CharClass::SepDot)
    }
}

pub open spec fn e6_tail_ok(s: Seq<char>, m: int) -> bool {
    m == s.len() || (0 <= m < s.len() && (s[m] == '.' || s[m] == '_' || is_wspace(s[m])))
}

pub open spec fn e6_core(s: Seq<char>, j: int) -> bool {
    let d = digit_run(s, j + 1);
    let k = j + 1 + d;
    &&& 0 <= j
    &&& j + 1 < s.len()
    &&& (s[j] == 'E' || s[j] == 'e')
    &&& 1 <= d <= 4
    &&& (e6_tail_ok(s, k) || (k + 2 <= s.len() && s[k] == 'v' && is_digit(s[k + 1]) && e6_tail_ok(
        s,
        k + 2,
    )))
}

pub open spec fn e6_match_at(s: Seq<char>, i: int) -> bool {
    ||| (i == 0 && e6_core(s, 0))
    ||| (0 <= i < s.len() && (s[i] == '-' || s[i] == '.' || s[i] == '_' || is_wspace(s[i]))
        && e6_core(s, i + 1))
}

/// At most `k` digits are captured from the run starting at `i`.
pub open spec fn capped_digits(s: Seq<char>, i: int, k: int) -> nat {
    let d = digit_run(s, i);
    if d <= k {
        digits_val(s.subrange(i, i + d))
    } else {
        digits_val(s.subrange(i, i + k))
    }
}

pub open spec fn ep_match_at(p: EpPat, s: Seq<char>, i: int) -> bool {
    match p {
        EpPat::Dash => e1_match_at(s, i),
        EpPat::SeasonEp => e2_match_at(s, i),
        EpPat::SepNum => e3_match_at(s, i),
        EpPat::Leading => i == 0 && e4_match(s),
        EpPat::EpWord => e5_match_at(s, i),
        EpPat::EShort => e6_match_at(s, i),
    }
}

pub open spec fn ep_value_at(p: EpPat, s: Seq<char>, i: int) -> nat {
    match p {
        EpPat::Dash => capped_digits(s, i + 2, 4),
        EpPat::SeasonEp => capped_digits(s, i + 2 + digit_run(s, i + 1), 3),
        EpPat::SepNum => capped_digits(s, i + 1, 3),
        EpPat::Leading => capped_digits(s, 0, 3),
        EpPat::EpWord => capped_digits(s, e5_digit_start(s, i), 3),
        EpPat::EShort => if i == 0 && e6_core(s, 0) {
            capped_digits(s, 1, 4)
        } else {
            capped_digits(s, i + 2, 4)
        },
    }
}

/// Result of searching for the leftmost occurrence of pattern `p` from
/// position `i` on.
pub open spec fn ep_scan_from(p: EpPat, s: Seq<char>, i: int) -> Option<nat>
    decreases s.len() - i,
    when 0 <= i <= s.len()
{
    if i >= s.len() {
        None
    } else if ep_match_at(p, s, i) {
        Some(ep_value_at(p, s, i))
    } else {
        ep_scan_from(p, s, i + 1)
    }
}

/// The in-range filter of the cascade: a parsed number is accepted only
/// strictly between 0 and 1000.
pub open spec fn ep_in_range(o: Option<nat>) -> Option<u32> {
    match o {
        Some(n) => if 0 < n < 1000 {
            Some(n as u32)
        } else {
            None
        },
        None => None,
    }
}

/// A trailing compressed-archive suffix is stripped before the cascade.
pub open spec fn strip_zst(s: Seq<char>) -> Seq<char> {
    if ends_with(s, ".zst"@) {
        s.subrange(0, s.len() - 4)
    } else {
        s
    }
}

/// The full episode cascade: the first pattern whose leftmost match
/// carries an in-range value decides.
pub open spec fn spec_parse_episode(s0: Seq<char>) -> Option<u32> {
    let s = strip_zst(s0);
    let r1 = ep_in_range(ep_scan_from(EpPat::Dash, s, 0));
    let r2 = ep_in_range(ep_scan_from(EpPat::SeasonEp, s, 0));
    let r3 = ep_in_range(ep_scan_from(EpPat::SepNum, s, 0));
    let r4 = ep_in_range(if e4_match(s) {
        Some(ep_value_at(EpPat::Leading, s, 0))
    } else {
        None
    });
    let r5 = ep_in_range(ep_scan_from(EpPat::EpWord, s, 0));
    let r6 = ep_in_range(ep_scan_from(EpPat::EShort, s, 0));
    if r1 is Some {
        r1
    } else if r2 is Some {
        r2
    } else if r3 is Some {
        r3
    } else if r4 is Some {
        r4
    } else if r5 is Some {
        r5
    } else if r6 is Some {
        r6
    } else {
        None
    }
}

// ---------------------------------------------------------------------------
// Executable episode matching
// ---------------------------------------------------------------------------

/// Reads the capped digit capture at `i`: at most `cap` digits of the run.
fn read_capped(v: &Vec<char>, i: usize, cap: usize) -> (r: u32)
    requires
        i <= v@.len(),
        1 <= cap <= 4,
    ensures
        r as nat == capped_digits(v@, i as int, cap as int),
        r < 10000,
{
    let d = digit_run_at(v, i);
    let k = if d <= cap {
        d
    } else {
        cap
    };
    proof {
        lemma_digit_run_in_bounds(v@, i as int);
        assert(forall|j: int| i <= j < i + k ==> is_digit(v@[j]));
    }
    let r = digits_value_at(v, i, k);
    proof {
        lemma_digits_val_bound(v@.subrange(i as int, i + k));
        lemma_pow10_mono(k as nat, 4);
        assert(pow10(4) == 10000) by {
            reveal_with_fuel(pow10, 6);
        }
    }
    r
}

/// Decides whether pattern `p` matches at position `i` and returns the
/// captured value if it does.
fn ep_try_at(p: EpPat, v: &Vec<char>, i: usize) -> (r: Option<u32>)
    requires
        i < v@.len(),
    ensures
        r is Some <==> ep_match_at(p, v@, i as int),
        r is Some ==> r->0 as nat == ep_value_at(p, v@, i as int) && r->0 < 10000,
{
    let n = v.len();
    match p {
        EpPat::Dash => {
            if n - i <= 2 || v[i] != '-' || v[i + 1] != ' ' {
                return None;
            }
            let d = digit_run_at(v, i + 2);
            if d < 1 || d > 4 {
                return None;
            }
            let j = i + 2 + d;
            let plain = e1_tail_ok_ex(v, j);
            let versioned = n - j >= 2 && v[j] == 'v' && char_is_digit(v[j + 1]) && e1_tail_ok_ex(
                v,
                j + 2,
            );
            if plain || versioned {
                Some(read_capped(v, i + 2, 4))
            } else {
                None
            }
        },
        EpPat::SeasonEp => {
            if v[i] != 'S' && v[i] != 's' {
                return None;
            }
            let d = digit_run_at(v, i + 1);
            if d < 1 || d > 2 {
                return None;
            }
            if i + 1 + d >= n || (v[i + 1 + d] != 'E' && v[i + 1 + d] != 'e') {
                return None;
            }
            if i + 2 + d >= n || !char_is_digit(v[i + 2 + d]) {
                return None;
            }
            Some(read_capped(v, i + 2 + d, 3))
        },
        EpPat::SepNum => {
            let c = v[i];
            if !(char_is_wspace(c) || c == '.' || c == '_') {
                return None;
            }
            if i + 1 >= n {
                return None;
            }
            let d = digit_run_at(v, i + 1);
            if d < 1 || d > 3 {
                return None;
            }
            let j = i + 1 + d;
            let w = run_len_at(v, j, CharClass::SepDot);
            let e = j + w;
            let mut has_dot = false;
            let mut m = j;
            while m < e
                invariant
                    j <= m <= e,
                    e == j + w,
                    e <= v@.len(),
                    v@.len() == n,
                    has_dot == exists|t: int| j <= t < m && v@[t] == '.',
                decreases e - m,
            {
                if v[m] == '.' {
                    has_dot = true;
                }
                m += 1;
            }
            let ok = e == n || v[e] == '[' || has_dot;
            if ok {
                Some(read_capped(v, i + 1, 3))
            } else {
                None
            }
        },
        EpPat::Leading => {
            if i != 0 {
                return None;
            }
            let d = digit_run_at(v, 0);
            if d < 1 || d > 3 {
                return None;
            }
            let w = run_len_at(v, d, CharClass::WSpace);
            if d + w < n && (v[d + w] == '-' || v[d + w] == '.' || v[d + w] == '_') {
                Some(read_capped(v, 0, 3))
            } else {
                None
            }
        },
        EpPat::EpWord => {
            if n - i < 2 || (v[i] != 'E' && v[i] != 'e') || (v[i + 1] != 'P' && v[i + 1] != 'p') {
                return None;
            }
            let isode = to_chars("isode");
            proof {
                reveal_strlit("isode");
            }
            let long_form = cs_lit_at(v, i + 2, &isode) && e5_rest_ok_ex(v, i + 7);
            if long_form {
                let w = run_len_at(v, i + 7, CharClass::SepDot);
                Some(read_capped(v, i + 7 + w, 3))
            } else if e5_rest_ok_ex(v, i + 2) {
                let w = run_len_at(v, i + 2, CharClass::SepDot);
                Some(read_capped(v, i + 2 + w, 3))
            } else {
                None
            }
        },
        EpPat::EShort => {
            if i == 0 && e6_core_ex(v, 0) {
                return Some(read_capped(v, 1, 4));
            }
            let c = v[i];
            if (c == '-' || c == '.' || c == '_' || char_is_wspace(c)) && e6_core_ex(v, i + 1) {
                Some(read_capped(v, i + 2, 4))
            } else {
                None
            }
        },
    }
}

fn e1_tail_ok_ex(v: &Vec<char>, j: usize) -> (r: bool)
    requires
        j <= v@.len(),
    ensures
        r == e1_tail_ok(v@, j as int),
{
    j == v.len() || v[j] == '.' || char_is_wspace(v[j]) || v[j] == '[' || v[j] == '('
}

fn e5_rest_ok_ex(v: &Vec<char>, j: usize) -> (r: bool)
    requires
        j <= v@.len(),
    ensures
        r == e5_rest_ok(v@, j as int),
{
    let n = v.len();
    let w = run_len_at(v, j, CharClass::SepDot);
    j + w < n && char_is_digit(v[j + w])
}

fn e6_tail_ok_ex(v: &Vec<char>, m: usize) -> (r: bool)
    requires
        m <= v@.len(),
    ensures
        r == e6_tail_ok(v@, m as int),
{
    m == v.len() || v[m] == '.' || v[m] == '_' || char_is_wspace(v[m])
}

fn e6_core_ex(v: &Vec<char>, j: usize) -> (r: bool)
    requires
        j <= v@.len(),
    ensures
        r == e6_core(v@, j as int),
{
    let n = v.len();
    if n - j <= 1 || (v[j] != 'E' && v[j] != 'e') {
        return false;
    }
    let d = digit_run_at(v, j + 1);
    if d < 1 || d > 4 {
        return false;
    }
    let k = j + 1 + d;
    e6_tail_ok_ex(v, k) || (n - k >= 2 && v[k] == 'v' && char_is_digit(v[k + 1]) && e6_tail_ok_ex(
        v,
        k + 2,
    ))
}

/// Reads the capped digit capture at `i` for other parser modules.
pub fn read_capped_pub(v: &Vec<char>, i: usize, cap: usize) -> (r: u32)
    requires
        i <= v@.len(),
        1 <= cap <= 4,
    ensures
        r as nat == capped_digits(v@, i as int, cap as int),
        r < 10000,
{
    read_capped(v, i, cap)
}

/// Finds the leftmost match of pattern `p` in `v`.
fn ep_scan(p: EpPat, v: &Vec<char>) -> (r: Option<u32>)
    ensures
        r is Some <==> ep_scan_from(p, v@, 0) is Some,
        r is Some ==> r->0 as nat == ep_scan_from(p, v@, 0)->0 && r->0 < 10000,
{
    let n = v.len();
    let mut i: usize = 0;
    while i < n
        invariant
            i <= n,
            n == v@.len(),
            ep_scan_from(p, v@, 0) == ep_scan_from(p, v@, i as int),
        decreases n - i,
    {
        let r = ep_try_at(p, v, i);
        if r.is_some() {
            return r;
        }
        i += 1;
        proof {
            assert(ep_scan_from(p, v@, i - 1) == ep_scan_from(p, v@, i as int));
        }
    }
    None
}

/// Maps the exec result of the in-range filter.
fn apply_ep_range(r: Option<u32>) -> (o: Option<u32>)
    requires
        r is Some ==> r->0 < 10000,
    ensures
        o == ep_in_range(
            match r {
                Some(n) => Some(n as nat),
                None => None,
            },
        ),
{
    match r {
        Some(n) => if 0 < n && n < 1000 {
            Some(n)
        } else {
            None
        },
        None => None,
    }
}

/// Parses the most plausible episode number out of a filename or release
/// title, trying the patterns of the cascade in priority order; a number
/// is accepted only strictly between 0 and 1000, and a missing match is
/// `None`, never an error.
pub fn parse_episode_number(filename: &str) -> (r: Option<u32>)
    ensures
        r == spec_parse_episode(filename@),
{
    let mut v = to_chars(filename);
    let zst = to_chars(".zst");
    proof {
        reveal_strlit(".zst");
    }
    if ends_with_ex(&v, &zst) {
        let m = v.len() - 4;
        v.truncate(m);
        proof {
            assert(v@ =~= strip_zst(filename@));
        }
    }
    proof {
        assert(v@ =~= strip_zst(filename@));
    }
    let r1 = apply_ep_range(ep_scan(EpPat::Dash, &v));
    if r1.is_some() {
        return r1;
    }
    let r2 = apply_ep_range(ep_scan(EpPat::SeasonEp, &v));
    if r2.is_some() {
        return r2;
    }
    let r3 = apply_ep_range(ep_scan(EpPat::SepNum, &v));
    if r3.is_some() {
        return r3;
    }
    let r4 = apply_ep_range(
        if v.len() > 0 {
            ep_try_at(EpPat::Leading, &v, 0)
        } else {
            proof {
                assert(!e4_match(v@));
            }
            None
        },
    );
    if r4.is_some() {
        return r4;
    }
    let r5 = apply_ep_range(ep_scan(EpPat::EpWord, &v));
    if r5.is_some() {
        return r5;
    }
    let r6 = apply_ep_range(ep_scan(EpPat::EShort, &v));
    r6
}

// ---------------------------------------------------------------------------
// Season patterns, in cascade order
// ---------------------------------------------------------------------------

/// The ordered season patterns of the cascade, each searched for at its
/// leftmost occurrence.
#[derive(Clone, Copy, PartialEq, Eq, Structural)]
pub enum SnPat {
    /// `Sxx` immediately followed (after spaces) by an `E` marker.
    SEp,
    /// A bare `Sxx` token.
    SOnly,
    /// `Season N`.
    SeasonWord,
    /// `2nd Season` and the like.
    OrdSeason,
    /// `Part N`.
    PartWord,
    /// `Cour N`.
    CourWord,
    /// `2nd Cour` and the like.
    OrdCour,
    /// Roman numerals II through X as a separate word.
    Roman,
    /// A number with the CJK season marker suffix.
    JpKi,
    /// Ordinal words `First` through `Tenth` before `Season` or `Cour`.
    OrdWord,
}

/// An English ordinal suffix (`st`, `nd`, `rd`, `th`) under case folding.
pub open spec fn ord_suffix_at(s: Seq<char>, j: int) -> bool {
    0 <= j && j + 2 <= s.len() && {
        let a = lower_char(s[j]);
        let b = lower_char(s[j + 1]);
        (a == 's' && b == 't') || (a == 'n' && b == 'd') || (a == 'r' && b == 'd') || (a == 't' && b
            == 'h')
    }
}

pub open spec fn sn_sep_match_at(s: Seq<char>, i: int) -> bool {
    let d = digit_run(s, i + 1);
    let j = i + 1 + d;
    let w = run_len(s, j, CharClass::WSpace);
    &&& 0 <= i
    &&& i + 1 < s.len()
    &&& wb(s, i)
    &&& lower_char(s[i]) == 's'
    &&& 1 <= d <= 2
    &&& j + w + 1 < s.len()
    &&& lower_char(s[j + w]) == 'e'
    &&& is_digit(s[j + w + 1])
}

pub open spec fn sn_only_match_at(s: Seq<char>, i: int) -> bool {
    let d = digit_run(s, i + 1);
    &&& 0 <= i
    &&& i + 1 < s.len()
    &&& wb(s, i)
    &&& lower_char(s[i]) == 's'
    &&& 1 <= d <= 2
    &&& wa(s, i + 1 + d)
}

/// A keyword, optional spaces, one or two digits, and a closing word
/// boundary; the common shape of `Season N`, `Part N` and `Cour N`.
pub open spec fn sn_kw_num_match_at(s: Seq<char>, i: int, kw: Seq<char>) -> bool {
    let j = i + kw.len();
    let w = run_len(s, j, CharClass::WSpace);
    let d = digit_run(s, j + w);
    &&& 0 <= i
    &&& wb(s, i)
    &&& kw_at(s, i, kw)
    &&& 1 <= d <= 2
    &&& wa(s, j + w + d)
}

pub open spec fn sn_kw_num_value(s: Seq<char>, i: int, kw: Seq<char>) -> nat {
    let j = i + kw.len();
    let w = run_len(s, j, CharClass::WSpace);
    capped_digits(s, j + w, 2)
}

/// One or two digits, an ordinal suffix, at least one space, then a
/// keyword with a closing boundary; the shape of `2nd Season`/`3rd Cour`.
pub open spec fn sn_ord_num_match_at(s: Seq<char>, i: int, kw: Seq<char>) -> bool {
    let d = digit_run(s, i);
    let j = i + d + 2;
    let w = run_len(s, j, CharClass::WSpace);
    &&& 0 <= i
    &&& wb(s, i)
    &&& 1 <= d <= 2
    &&& ord_suffix_at(s, i + d)
    &&& w >= 1
    &&& kw_at(s, j + w, kw)
    &&& wa(s, j + w + kw.len())
}

/// Roman numeral season markers, in the alternation order of the
/// pattern table; the value of the first that fits with a closing
/// boundary.
pub open spec fn roman_at(s: Seq<char>, i: int) -> Option<nat> {
    if !wb(s, i) {
        None
    } else if lit_at(s, i, "VIII"@) && wa(s, i + 4) {
        Some(8)
    } else if lit_at(s, i, "VII"@) && wa(s, i + 3) {
        Some(7)
    } else if lit_at(s, i, "VI"@) && wa(s, i + 2) {
        Some(6)
    } else if lit_at(s, i, "IV"@) && wa(s, i + 2) {
        Some(4)
    } else if lit_at(s, i, "IX"@) && wa(s, i + 2) {
        Some(9)
    } else if lit_at(s, i, "III"@) && wa(s, i + 3) {
        Some(3)
    } else if lit_at(s, i, "II"@) && wa(s, i + 2) {
        Some(2)
    } else if lit_at(s, i, "V"@) && wa(s, i + 1) {
        Some(5)
    } else if lit_at(s, i, "X"@) && wa(s, i + 1) {
        Some(10)
    } else {
        None
    }
}

/// A number directly followed by the CJK season marker; two digits are
/// preferred over one.
pub open spec fn jpki_at(s: Seq<char>, i: int) -> Option<nat> {
    if 0 <= i && i + 2 < s.len() && is_digit(s[i]) && is_digit(s[i + 1]) && s[i + 2] == '\u{671f}' {
        Some(digits_val(s.subrange(i, i + 2)))
    } else if 0 <= i && i + 1 < s.len() && is_digit(s[i]) && s[i + 1] == '\u{671f}' {
        Some(digits_val(s.subrange(i, i + 1)))
    } else {
        None
    }
}

/// The ordinal words `first` through `tenth`, with their length.
pub open spec fn ordinal_word_at(s: Seq<char>, i: int) -> Option<(nat, nat)> {
    if kw_at(s, i, "first"@) {
        Some((1, 5))
    } else if kw_at(s, i, "second"@) {
        Some((2, 6))
    } else if kw_at(s, i, "third"@) {
        Some((3, 5))
    } else if kw_at(s, i, "fourth"@) {
        Some((4, 6))
    } else if kw_at(s, i, "fifth"@) {
        Some((5, 5))
    } else if kw_at(s, i, "sixth"@) {
        Some((6, 5))
    } else if kw_at(s, i, "seventh"@) {
        Some((7, 7))
    } else if kw_at(s, i, "eighth"@) {
        Some((8, 6))
    } else if kw_at(s, i, "ninth"@) {
        Some((9, 5))
    } else if kw_at(s, i, "tenth"@) {
        Some((10, 5))
    } else {
        None
    }
}

pub open spec fn sn_ordword_match_at(s: Seq<char>, i: int) -> bool {
    &&& 0 <= i
    &&& wb(s, i)
    &&& ordinal_word_at(s, i) is Some
    &&& {
        let j = i + (ordinal_word_at(s, i)->0).1;
        let w = run_len(s, j, CharClass::WSpace);
        &&& w >= 1
        &&& ((kw_at(s, j + w, "season"@) && wa(s, j + w + 6)) || (kw_at(s, j + w, "cour"@) && wa(
            s,
            j + w + 4,
        )))
    }
}

pub open spec fn sn_match_at(p: SnPat, s: Seq<char>, i: int) -> bool {
    match p {
        SnPat::SEp => sn_sep_match_at(s, i),
        SnPat::SOnly => sn_only_match_at(s, i),
        SnPat::SeasonWord => sn_kw_num_match_at(s, i, "season"@),
        SnPat::OrdSeason => sn_ord_num_match_at(s, i, "season"@),
        SnPat::PartWord => sn_kw_num_match_at(s, i, "part"@),
        SnPat::CourWord => sn_kw_num_match_at(s, i, "cour"@),
        SnPat::OrdCour => sn_ord_num_match_at(s, i, "cour"@),
        SnPat::Roman => roman_at(s, i) is Some,
        SnPat::JpKi => jpki_at(s, i) is Some,
        SnPat::OrdWord => sn_ordword_match_at(s, i),
    }
}

pub open spec fn sn_value_at(p: SnPat, s: Seq<char>, i: int) -> nat {
    match p {
        SnPat::SEp => capped_digits(s, i + 1, 2),
        SnPat::SOnly => capped_digits(s, i + 1, 2),
        SnPat::SeasonWord => sn_kw_num_value(s, i, "season"@),
        SnPat::OrdSeason => capped_digits(s, i, 2),
        SnPat::PartWord => sn_kw_num_value(s, i, "part"@),
        SnPat::CourWord => sn_kw_num_value(s, i, "cour"@),
        SnPat::OrdCour => capped_digits(s, i, 2),
        SnPat::Roman => roman_at(s, i)->0,
        SnPat::JpKi => jpki_at(s, i)->0,
        SnPat::OrdWord => (ordinal_word_at(s, i)->0).0,
    }
}

pub open spec fn sn_scan_from(p: SnPat, s: Seq<char>, i: int) -> Option<nat>
    decreases s.len() - i,
    when 0 <= i <= s.len()
{
    if i >= s.len() {
        None
    } else if sn_match_at(p, s, i) {
        Some(sn_value_at(p, s, i))
    } else {
        sn_scan_from(p, s, i + 1)
    }
}

/// A season number is accepted only strictly between 0 and 100.
pub open spec fn sn_in_range(o: Option<nat>) -> Option<u32> {
    match o {
        Some(n) => if 0 < n < 100 {
            Some(n as u32)
        } else {
            None
        },
        None => None,
    }
}

/// The full season cascade, in pattern-table order.
pub open spec fn spec_parse_season(s: Seq<char>) -> Option<u32> {
    let r1 = sn_in_range(sn_scan_from(SnPat::SEp, s, 0));
    let r2 = sn_in_range(sn_scan_from(SnPat::SOnly, s, 0));
    let r3 = sn_in_range(sn_scan_from(SnPat::SeasonWord, s, 0));
    let r4 = sn_in_range(sn_scan_from(SnPat::OrdSeason, s, 0));
    let r5 = sn_in_range(sn_scan_from(SnPat::PartWord, s, 0));
    let r6 = sn_in_range(sn_scan_from(SnPat::CourWord, s, 0));
    let r7 = sn_in_range(sn_scan_from(SnPat::OrdCour, s, 0));
    let r8 = sn_in_range(sn_scan_from(SnPat::Roman, s, 0));
    let r9 = sn_in_range(sn_scan_from(SnPat::JpKi, s, 0));
    let r10 = sn_in_range(sn_scan_from(SnPat::OrdWord, s, 0));
    if r1 is Some {
        r1
    } else if r2 is Some {
        r2
    } else if r3 is Some {
        r3
    } else if r4 is Some {
        r4
    } else if r5 is Some {
        r5
    } else if r6 is Some {
        r6
    } else if r7 is Some {
        r7
    } else if r8 is Some {
        r8
    } else if r9 is Some {
        r9
    } else if r10 is Some {
        r10
    } else {
        None
    }
}

// ---------------------------------------------------------------------------
// Executable season matching
// ---------------------------------------------------------------------------

fn ord_suffix_at_ex(v: &Vec<char>, j: usize) -> (r: bool)
    requires
        j <= v@.len(),
    ensures
        r == ord_suffix_at(v@, j as int),
{
    let n = v.len();
    if n - j < 2 {
        return false;
    }
    let a = to_lower_char(v[j]);
    let b = to_lower_char(v[j + 1]);
    (a == 's' && b == 't') || (a == 'n' && b == 'd') || (a == 'r' && b == 'd') || (a == 't' && b
        == 'h')
}

/// The common `keyword [spaces] digits boundary` matcher; returns the
/// captured value.
pub fn sn_kw_num_try_at(v: &Vec<char>, i: usize, kw: &Vec<char>) -> (r: Option<u32>)
    requires
        i < v@.len(),
    ensures
        r is Some <==> sn_kw_num_match_at(v@, i as int, kw@),
        r is Some ==> r->0 as nat == sn_kw_num_value(v@, i as int, kw@) && r->0 < 10000,
{
    let n = v.len();
    if !wb_at(v, i) || !ci_kw_at(v, i, kw) {
        return None;
    }
    let j = i + kw.len();
    let w = run_len_at(v, j, CharClass::WSpace);
    let d = digit_run_at(v, j + w);
    if 1 <= d && d <= 2 && wa_at(v, j + w + d) {
        Some(read_capped(v, j + w, 2))
    } else {
        None
    }
}

fn sn_ord_num_try_at(v: &Vec<char>, i: usize, kw: &Vec<char>) -> (r: Option<u32>)
    requires
        i < v@.len(),
    ensures
        r is Some <==> sn_ord_num_match_at(v@, i as int, kw@),
        r is Some ==> r->0 as nat == capped_digits(v@, i as int, 2) && r->0 < 10000,
{
    let n = v.len();
    if !wb_at(v, i) {
        return None;
    }
    let d = digit_run_at(v, i);
    if d < 1 || d > 2 {
        return None;
    }
    if !ord_suffix_at_ex(v, i + d) {
        return None;
    }
    let j = i + d + 2;
    let w = run_len_at(v, j, CharClass::WSpace);
    if w >= 1 && ci_kw_at(v, j + w, kw) && wa_at(v, j + w + kw.len()) {
        Some(read_capped(v, i, 2))
    } else {
        None
    }
}

fn roman_try_at(v: &Vec<char>, i: usize) -> (r: Option<u32>)
    requires
        i < v@.len(),
    ensures
        r is Some <==> roman_at(v@, i as int) is Some,
        r is Some ==> r->0 as nat == roman_at(v@, i as int)->0,
{
    let n = v.len();
    if !wb_at(v, i) {
        return None;
    }
    let l_viii = to_chars("VIII");
    let l_vii = to_chars("VII");
    let l_vi = to_chars("VI");
    let l_iv = to_chars("IV");
    let l_ix = to_chars("IX");
    let l_iii = to_chars("III");
    let l_ii = to_chars("II");
    let l_v = to_chars("V");
    let l_x = to_chars("X");
    proof {
        reveal_strlit("VIII");
        reveal_strlit("VII");
        reveal_strlit("VI");
        reveal_strlit("IV");
        reveal_strlit("IX");
        reveal_strlit("III");
        reveal_strlit("II");
        reveal_strlit("V");
        reveal_strlit("X");
    }
    if cs_lit_at(v, i, &l_viii) && wa_at(v, i + 4) {
        Some(8)
    } else if cs_lit_at(v, i, &l_vii) && wa_at(v, i + 3) {
        Some(7)
    } else if cs_lit_at(v, i, &l_vi) && wa_at(v, i + 2) {
        Some(6)
    } else if cs_lit_at(v, i, &l_iv) && wa_at(v, i + 2) {
        Some(4)
    } else if cs_lit_at(v, i, &l_ix) && wa_at(v, i + 2) {
        Some(9)
    } else if cs_lit_at(v, i, &l_iii) && wa_at(v, i + 3) {
        Some(3)
    } else if cs_lit_at(v, i, &l_ii) && wa_at(v, i + 2) {
        Some(2)
    } else if cs_lit_at(v, i, &l_v) && wa_at(v, i + 1) {
        Some(5)
    } else if cs_lit_at(v, i, &l_x) && wa_at(v, i + 1) {
        Some(10)
    } else {
        None
    }
}

fn jpki_try_at(v: &Vec<char>, i: usize) -> (r: Option<u32>)
    requires
        i < v@.len(),
    ensures
        r is Some <==> jpki_at(v@, i as int) is Some,
        r is Some ==> r->0 as nat == jpki_at(v@, i as int)->0 && r->0 < 10000,
{
    let n = v.len();
    if n - i > 2 && char_is_digit(v[i]) && char_is_digit(v[i + 1]) && v[i + 2] == '\u{671f}' {
        proof {
            assert(forall|t: int| i <= t < i + 2 ==> is_digit(v@[t]));
        }
        let r = digits_value_at(v, i, 2);
        proof {
            lemma_digits_val_bound(v@.subrange(i as int, i + 2));
            assert(pow10(2) == 100) by {
                reveal_with_fuel(crate::text::pow10, 4);
            }
        }
        Some(r)
    } else if n - i > 1 && char_is_digit(v[i]) && v[i + 1] == '\u{671f}' {
        proof {
            assert(forall|t: int| i <= t < i + 1 ==> is_digit(v@[t]));
        }
        let r = digits_value_at(v, i, 1);
        proof {
            lemma_digits_val_bound(v@.subrange(i as int, i + 1));
            assert(pow10(1) == 10) by {
                reveal_with_fuel(crate::text::pow10, 3);
            }
        }
        Some(r)
    } else {
        None
    }
}

fn ordinal_word_try_at(v: &Vec<char>, i: usize) -> (r: Option<(u32, usize)>)
    requires
        i <= v@.len(),
    ensures
        r is Some <==> ordinal_word_at(v@, i as int) is Some,
        r is Some ==> (r->0).0 as nat == (ordinal_word_at(v@, i as int)->0).0 && (r->0).1 as nat
            == (ordinal_word_at(v@, i as int)->0).1 && (r->0).0 <= 10 && i + (r->0).1 <= v@.len(),
{
    let w1 = to_chars("first");
    let w2 = to_chars("second");
    let w3 = to_chars("third");
    let w4 = to_chars("fourth");
    let w5 = to_chars("fifth");
    let w6 = to_chars("sixth");
    let w7 = to_chars("seventh");
    let w8 = to_chars("eighth");
    let w9 = to_chars("ninth");
    let w10 = to_chars("tenth");
    proof {
        reveal_strlit("first");
        reveal_strlit("second");
        reveal_strlit("third");
        reveal_strlit("fourth");
        reveal_strlit("fifth");
        reveal_strlit("sixth");
        reveal_strlit("seventh");
        reveal_strlit("eighth");
        reveal_strlit("ninth");
        reveal_strlit("tenth");
    }
    if ci_kw_at(v, i, &w1) {
        Some((1, 5))
    } else if ci_kw_at(v, i, &w2) {
        Some((2, 6))
    } else if ci_kw_at(v, i, &w3) {
        Some((3, 5))
    } else if ci_kw_at(v, i, &w4) {
        Some((4, 6))
    } else if ci_kw_at(v, i, &w5) {
        Some((5, 5))
    } else if ci_kw_at(v, i, &w6) {
        Some((6, 5))
    } else if ci_kw_at(v, i, &w7) {
        Some((7, 7))
    } else if ci_kw_at(v, i, &w8) {
        Some((8, 6))
    } else if ci_kw_at(v, i, &w9) {
        Some((9, 5))
    } else if ci_kw_at(v, i, &w10) {
        Some((10, 5))
    } else {
        None
    }
}

fn sn_try_at(p: SnPat, v: &Vec<char>, i: usize) -> (r: Option<u32>)
    requires
        i < v@.len(),
    ensures
        r is Some <==> sn_match_at(p, v@, i as int),
        r is Some ==> r->0 as nat == sn_value_at(p, v@, i as int) && r->0 < 10000,
{
    let n = v.len();
    match p {
        SnPat::SEp => {
            if !wb_at(v, i) || to_lower_char(v[i]) != 's' {
                return None;
            }
            let d = digit_run_at(v, i + 1);
            if d < 1 || d > 2 {
                return None;
            }
            let j = i + 1 + d;
            let w = run_len_at(v, j, CharClass::WSpace);
            if n - (j + w) > 1 && to_lower_char(v[j + w]) == 'e' && char_is_digit(v[j + w + 1]) {
                Some(read_capped(v, i + 1, 2))
            } else {
                None
            }
        },
        SnPat::SOnly => {
            if !wb_at(v, i) || to_lower_char(v[i]) != 's' {
                return None;
            }
            let d = digit_run_at(v, i + 1);
            if 1 <= d && d <= 2 && wa_at(v, i + 1 + d) {
                Some(read_capped(v, i + 1, 2))
            } else {
                None
            }
        },
        SnPat::SeasonWord => {
            let kw = to_chars("season");
            sn_kw_num_try_at(v, i, &kw)
        },
        SnPat::OrdSeason => {
            let kw = to_chars("season");
            sn_ord_num_try_at(v, i, &kw)
        },
        SnPat::PartWord => {
            let kw = to_chars("part");
            sn_kw_num_try_at(v, i, &kw)
        },
        SnPat::CourWord => {
            let kw = to_chars("cour");
            sn_kw_num_try_at(v, i, &kw)
        },
        SnPat::OrdCour => {
            let kw = to_chars("cour");
            sn_ord_num_try_at(v, i, &kw)
        },
        SnPat::Roman => roman_try_at(v, i),
        SnPat::JpKi => jpki_try_at(v, i),
        SnPat::OrdWord => {
            if !wb_at(v, i) {
                return None;
            }
            match ordinal_word_try_at(v, i) {
                None => None,
                Some((val, l)) => {
                    let j = i + l;
                    let w = run_len_at(v, j, CharClass::WSpace);
                    let season = to_chars("season");
                    let cour = to_chars("cour");
                    proof {
                        reveal_strlit("season");
                        reveal_strlit("cour");
                    }
                    if w >= 1 && (ci_kw_at(v, j + w, &season) && wa_at(v, j + w + 6) || ci_kw_at(
                        v,
                        j + w,
                        &cour,
                    ) && wa_at(v, j + w + 4)) {
                        Some(val)
                    } else {
                        None
                    }
                },
            }
        },
    }
}

fn sn_scan(p: SnPat, v: &Vec<char>) -> (r: Option<u32>)
    ensures
        r is Some <==> sn_scan_from(p, v@, 0) is Some,
        r is Some ==> r->0 as nat == sn_scan_from(p, v@, 0)->0 && r->0 < 10000,
{
    let n = v.len();
    let mut i: usize = 0;
    while i < n
        invariant
            i <= n,
            n == v@.len(),
            sn_scan_from(p, v@, 0) == sn_scan_from(p, v@, i as int),
        decreases n - i,
    {
        let r = sn_try_at(p, v, i);
        if r.is_some() {
            return r;
        }
        i += 1;
        proof {
            assert(sn_scan_from(p, v@, i - 1) == sn_scan_from(p, v@, i as int));
        }
    }
    None
}

fn apply_sn_range(r: Option<u32>) -> (o: Option<u32>)
    requires
        r is Some ==> r->0 < 10000,
    ensures
        o == sn_in_range(
            match r {
                Some(n) => Some(n as nat),
                None => None,
            },
        ),
{
    match r {
        Some(n) => if 0 < n && n < 100 {
            Some(n)
        } else {
            None
        },
        None => None,
    }
}

/// Parses a season number out of a title, trying the season pattern
/// table in order; a number is accepted only strictly between 0 and 100,
/// and absence of a match means "no season markup", not season one.
pub fn parse_season_number(title: &str) -> (r: Option<u32>)
    ensures
        r == spec_parse_season(title@),
{
    let v = to_chars(title);
    let r1 = apply_sn_range(sn_scan(SnPat::SEp, &v));
    if r1.is_some() {
        return r1;
    }
    let r2 = apply_sn_range(sn_scan(SnPat::SOnly, &v));
    if r2.is_some() {
        return r2;
    }
    let r3 = apply_sn_range(sn_scan(SnPat::SeasonWord, &v));
    if r3.is_some() {
        return r3;
    }
    let r4 = apply_sn_range(sn_scan(SnPat::OrdSeason, &v));
    if r4.is_some() {
        return r4;
    }
    let r5 = apply_sn_range(sn_scan(SnPat::PartWord, &v));
    if r5.is_some() {
        return r5;
    }
    let r6 = apply_sn_range(sn_scan(SnPat::CourWord, &v));
    if r6.is_some() {
        return r6;
    }
    let r7 = apply_sn_range(sn_scan(SnPat::OrdCour, &v));
    if r7.is_some() {
        return r7;
    }
    let r8 = apply_sn_range(sn_scan(SnPat::Roman, &v));
    if r8.is_some() {
        return r8;
    }
    let r9 = apply_sn_range(sn_scan(SnPat::JpKi, &v));
    if r9.is_some() {
        return r9;
    }
    let r10 = apply_sn_range(sn_scan(SnPat::OrdWord, &v));
    r10
}

// ---------------------------------------------------------------------------
// Roman numerals and ordinal words as standalone converters
// ---------------------------------------------------------------------------

pub open spec fn spec_roman_word(s: Seq<char>) -> Option<u32> {
    if s == "II"@ {
        Some(2u32)
    } else if s == "III"@ {
        Some(3u32)
    } else if s == "IV"@ {
        Some(4u32)
    } else if s == "V"@ {
        Some(5u32)
    } else if s == "VI"@ {
        Some(6u32)
    } else if s == "VII"@ {
        Some(7u32)
    } else if s == "VIII"@ {
        Some(8u32)
    } else if s == "IX"@ {
        Some(9u32)
    } else if s == "X"@ {
        Some(10u32)
    } else {
        None
    }
}

/// Converts an exact Roman-numeral word (II through X) to its value.
pub fn roman_to_u32(s: &str) -> (r: Option<u32>)
    ensures
        r == spec_roman_word(s@),
{
    let v = to_chars(s);
    let lits = [
        ("II", 2u32),
        ("III", 3u32),
        ("IV", 4u32),
        ("V", 5u32),
        ("VI", 6u32),
        ("VII", 7u32),
        ("VIII", 8u32),
        ("IX", 9u32),
        ("X", 10u32),
    ];
    proof {
        reveal_strlit("II");
        reveal_strlit("III");
        reveal_strlit("IV");
        reveal_strlit("V");
        reveal_strlit("VI");
        reveal_strlit("VII");
        reveal_strlit("VIII");
        reveal_strlit("IX");
        reveal_strlit("X");
    }
    let mut k: usize = 0;
    while k < 9
        invariant
            k <= 9,
            v@ == s@,
            lits@.len() == 9,
            lits@[0] == ("II", 2u32),
            lits@[1] == ("III", 3u32),
            lits@[2] == ("IV", 4u32),
            lits@[3] == ("V", 5u32),
            lits@[4] == ("VI", 6u32),
            lits@[5] == ("VII", 7u32),
            lits@[6] == ("VIII", 8u32),
            lits@[7] == ("IX", 9u32),
            lits@[8] == ("X", 10u32),
            forall|t: int| 0 <= t < k ==> s@ != (#[trigger] lits@[t]).0@,
        decreases 9 - k,
    {
        let (lit, val) = lits[k];
        let lv = to_chars(lit);
        if v.len() == lv.len() && cs_lit_at(&v, 0, &lv) {
            proof {
                assert(v@ =~= lv@);
            }
            return Some(val);
        }
        proof {
            assert(s@ != lits@[k as int].0@);
        }
        k += 1;
    }
    None
}

pub open spec fn spec_ordinal_word(l: Seq<char>) -> Option<u32> {
    if l == "first"@ {
        Some(1u32)
    } else if l == "second"@ {
        Some(2u32)
    } else if l == "third"@ {
        Some(3u32)
    } else if l == "fourth"@ {
        Some(4u32)
    } else if l == "fifth"@ {
        Some(5u32)
    } else if l == "sixth"@ {
        Some(6u32)
    } else if l == "seventh"@ {
        Some(7u32)
    } else if l == "eighth"@ {
        Some(8u32)
    } else if l == "ninth"@ {
        Some(9u32)
    } else if l == "tenth"@ {
        Some(10u32)
    } else {
        None
    }
}

/// Converts an English ordinal word, compared under ASCII case folding,
/// to its value.
pub fn ordinal_to_u32(s: &str) -> (r: Option<u32>)
    ensures
        r == spec_ordinal_word(lower_seq(s@)),
{
    let v = to_chars(s);
    let l = lower_vec(&v);
    let words = [
        ("first", 1u32),
        ("second", 2u32),
        ("third", 3u32),
        ("fourth", 4u32),
        ("fifth", 5u32),
        ("sixth", 6u32),
        ("seventh", 7u32),
        ("eighth", 8u32),
        ("ninth", 9u32),
        ("tenth", 10u32),
    ];
    proof {
        reveal_strlit("first");
        reveal_strlit("second");
        reveal_strlit("third");
        reveal_strlit("fourth");
        reveal_strlit("fifth");
        reveal_strlit("sixth");
        reveal_strlit("seventh");
        reveal_strlit("eighth");
        reveal_strlit("ninth");
        reveal_strlit("tenth");
    }
    let mut k: usize = 0;
    while k < 10
        invariant
            k <= 10,
            l@ == lower_seq(s@),
            words@.len() == 10,
            words@[0] == ("first", 1u32),
            words@[1] == ("second", 2u32),
            words@[2] == ("third", 3u32),
            words@[3] == ("fourth", 4u32),
            words@[4] == ("fifth", 5u32),
            words@[5] == ("sixth", 6u32),
            words@[6] == ("seventh", 7u32),
            words@[7] == ("eighth", 8u32),
            words@[8] == ("ninth", 9u32),
            words@[9] == ("tenth", 10u32),
            forall|t: int| 0 <= t < k ==> lower_seq(s@) != (#[trigger] words@[t]).0@,
        decreases 10 - k,
    {
        let (lit, val) = words[k];
        let lv = to_chars(lit);
        if l.len() == lv.len() && cs_lit_at(&l, 0, &lv) {
            proof {
                assert(l@ =~= lv@);
            }
            return Some(val);
        }
        proof {
            assert(lower_seq(s@) != words@[k as int].0@);
        }
        k += 1;
    }
    None
}

// ---------------------------------------------------------------------------
// Video files, identifiers and titles
// ---------------------------------------------------------------------------

/// The case-folded name ends in one of the video extensions.
pub open spec fn video_ext_match(l: Seq<char>) -> bool {
    ||| ends_with(l, "mkv"@)
    ||| ends_with(l, "mp4"@)
    ||| ends_with(l, "avi"@)
    ||| ends_with(l, "webm"@)
    ||| ends_with(l, "m4v"@)
    ||| ends_with(l, "mov"@)
}

/// A video file: its case-folded name ends in a video extension, with a
/// single compressed-archive suffix allowed on top.
pub open spec fn spec_is_video_file(s: Seq<char>) -> bool {
    let l = lower_seq(s);
    if ends_with(l, ".zst"@) {
        video_ext_match(l.subrange(0, l.len() - 4))
    } else {
        video_ext_match(l)
    }
}

fn video_ext_match_ex(l: &Vec<char>) -> (r: bool)
    ensures
        r == video_ext_match(l@),
{
    let e1 = to_chars("mkv");
    let e2 = to_chars("mp4");
    let e3 = to_chars("avi");
    let e4 = to_chars("webm");
    let e5 = to_chars("m4v");
    let e6 = to_chars("mov");
    ends_with_ex(l, &e1) || ends_with_ex(l, &e2) || ends_with_ex(l, &e3) || ends_with_ex(l, &e4)
        || ends_with_ex(l, &e5) || ends_with_ex(l, &e6)
}

/// Decides whether a filename names a video file, compressed or not.
pub fn is_video_file(filename: &str) -> (r: bool)
    ensures
        r == spec_is_video_file(filename@),
{
    let v = to_chars(filename);
    let mut l = lower_vec(&v);
    let zst = to_chars(".zst");
    proof {
        reveal_strlit(".zst");
    }
    if ends_with_ex(&l, &zst) {
        let m = l.len() - 4;
        l.truncate(m);
        proof {
            assert(l@ =~= lower_seq(filename@).subrange(0, lower_seq(filename@).len() - 4));
        }
    }
    video_ext_match_ex(&l)
}

/// The canonical identifier of a show name: its alphanumeric runs,
/// case-folded, joined by dashes.
pub open spec fn spec_make_show_id(s: Seq<char>) -> Seq<char> {
    join_char('-', runs_from(lower_seq(s), 0, CharClass::AlnumExt))
}

/// Builds the canonical identifier of a show from its display name.
pub fn make_show_id(name: &str) -> (r: String)
    ensures
        r@ == spec_make_show_id(name@),
{
    let v = to_chars(name);
    let l = lower_vec(&v);
    let runs = split_runs(&l, CharClass::AlnumExt);
    let out = join_runs(&l, &runs, '-', false);
    chars_to_string(&out)
}

/// The display title of a show: the name with `_` and `.` treated as
/// spaces and whitespace collapsed.
pub open spec fn spec_make_show_title(s: Seq<char>) -> Seq<char> {
    join_char(' ', runs_from(s, 0, CharClass::TitleSeg))
}

/// Builds the display title of a show from a directory or file name.
pub fn make_show_title(name: &str) -> (r: String)
    ensures
        r@ == spec_make_show_title(name@),
{
    let v = to_chars(name);
    let runs = split_runs(&v, CharClass::TitleSeg);
    let out = join_runs(&v, &runs, ' ', false);
    chars_to_string(&out)
}

// ---------------------------------------------------------------------------
// Release group and quality token
// ---------------------------------------------------------------------------

/// Position of the first closing bracket at or after `j`.
pub open spec fn first_close(s: Seq<char>, j: int) -> Option<int>
    decreases s.len() - j,
    when 0 <= j <= s.len()
{
    if j >= s.len() {
        None
    } else if s[j] == ']' {
        Some(j)
    } else {
        first_close(s, j + 1)
    }
}

/// The release group: the content of a single bracketed token at the
/// very start of the name, if it is non-empty.
pub open spec fn spec_release_group(s: Seq<char>) -> Option<Seq<char>> {
    if s.len() > 0 && s[0] == '[' {
        match first_close(s, 1) {
            Some(j) => if j > 1 {
                Some(s.subrange(1, j))
            } else {
                None
            },
            None => None,
        }
    } else {
        None
    }
}

/// Extracts the leading bracketed release-group token of a title.
pub fn parse_release_group(filename: &str) -> (r: Option<String>)
    ensures
        r is Some <==> spec_release_group(filename@) is Some,
        r is Some ==> r->0@ == spec_release_group(filename@)->0,
{
    let v = to_chars(filename);
    let n = v.len();
    if n == 0 || v[0] != '[' {
        return None;
    }
    let mut j: usize = 1;
    while j < n && v[j] != ']'
        invariant
            1 <= j <= n,
            n == v@.len(),
            first_close(v@, 1) == first_close(v@, j as int),
            forall|t: int| 1 <= t < j ==> v@[t] != ']',
        decreases n - j,
    {
        j += 1;
        proof {
            assert(first_close(v@, j - 1) == first_close(v@, j as int));
        }
    }
    if j == n {
        return None;
    }
    if j == 1 {
        return None;
    }
    let mut out: Vec<char> = Vec::new();
    let mut t: usize = 1;
    while t < j
        invariant
            1 <= t <= j,
            j < n,
            n == v@.len(),
            out@ == v@.subrange(1, t as int),
        decreases j - t,
    {
        out.push(v[t]);
        t += 1;
        proof {
            assert(out@ =~= v@.subrange(1, t as int));
        }
    }
    Some(chars_to_string(&out))
}

/// The quality token matched at position `i`, already in lower case.
pub open spec fn quality_at(s: Seq<char>, i: int) -> Option<Seq<char>> {
    if lit_at(s, i, "360"@) && i + 3 < s.len() && (s[i + 3] == 'p' || s[i + 3] == 'P') {
        Some("360p"@)
    } else if lit_at(s, i, "480"@) && i + 3 < s.len() && (s[i + 3] == 'p' || s[i + 3] == 'P') {
        Some("480p"@)
    } else if lit_at(s, i, "720"@) && i + 3 < s.len() && (s[i + 3] == 'p' || s[i + 3] == 'P') {
        Some("720p"@)
    } else if lit_at(s, i, "1080"@) && i + 4 < s.len() && (s[i + 4] == 'p' || s[i + 4] == 'P') {
        Some("1080p"@)
    } else if lit_at(s, i, "2160"@) && i + 4 < s.len() && (s[i + 4] == 'p' || s[i + 4] == 'P') {
        Some("2160p"@)
    } else if 0 <= i && i + 1 < s.len() && s[i] == '4' && (s[i + 1] == 'k' || s[i + 1] == 'K') {
        Some("4k"@)
    } else {
        None
    }
}

pub open spec fn quality_scan_from(s: Seq<char>, i: int) -> Option<Seq<char>>
    decreases s.len() - i,
    when 0 <= i <= s.len()
{
    if i >= s.len() {
        None
    } else if quality_at(s, i) is Some {
        quality_at(s, i)
    } else {
        quality_scan_from(s, i + 1)
    }
}

fn quality_try_at(v: &Vec<char>, i: usize) -> (r: Option<String>)
    requires
        i < v@.len(),
    ensures
        r is Some <==> quality_at(v@, i as int) is Some,
        r is Some ==> r->0@ == quality_at(v@, i as int)->0,
{
    let n = v.len();
    let t360 = to_chars("360");
    let t480 = to_chars("480");
    let t720 = to_chars("720");
    let t1080 = to_chars("1080");
    let t2160 = to_chars("2160");
    proof {
        reveal_strlit("360");
        reveal_strlit("480");
        reveal_strlit("720");
        reveal_strlit("1080");
        reveal_strlit("2160");
    }
    if cs_lit_at(v, i, &t360) && i + 3 < n && (v[i + 3] == 'p' || v[i + 3] == 'P') {
        Some(String::from_str("360p"))
    } else if cs_lit_at(v, i, &t480) && i + 3 < n && (v[i + 3] == 'p' || v[i + 3] == 'P') {
        Some(String::from_str("480p"))
    } else if cs_lit_at(v, i, &t720) && i + 3 < n && (v[i + 3] == 'p' || v[i + 3] == 'P') {
        Some(String::from_str("720p"))
    } else if cs_lit_at(v, i, &t1080) && i + 4 < n && (v[i + 4] == 'p' || v[i + 4] == 'P') {
        Some(String::from_str("1080p"))
    } else if cs_lit_at(v, i, &t2160) && i + 4 < n && (v[i + 4] == 'p' || v[i + 4] == 'P') {
        Some(String::from_str("2160p"))
    } else if n - i > 1 && v[i] == '4' && (v[i + 1] == 'k' || v[i + 1] == 'K') {
        Some(String::from_str("4k"))
    } else {
        None
    }
}

/// Extracts the quality token of a title: a resolution marker or `4k`,
/// normalised to lower case.
pub fn parse_quality(filename: &str) -> (r: Option<String>)
    ensures
        r is Some <==> quality_scan_from(filename@, 0) is Some,
        r is Some ==> r->0@ == quality_scan_from(filename@, 0)->0,
{
    let v = to_chars(filename);
    let n = v.len();
    let mut i: usize = 0;
    while i < n
        invariant
            i <= n,
            n == v@.len(),
            v@ == filename@,
            quality_scan_from(v@, 0) == quality_scan_from(v@, i as int),
        decreases n - i,
    {
        let r = quality_try_at(&v, i);
        if r.is_some() {
            return r;
        }
        i += 1;
        proof {
            assert(quality_scan_from(v@, i - 1) == quality_scan_from(v@, i as int));
        }
    }
    None
}

// ---------------------------------------------------------------------------
// Laws of the episode cascade
// ---------------------------------------------------------------------------

/// A leftmost match decides a pattern scan.
proof fn lemma_ep_scan_leftmost(p: EpPat, s: Seq<char>, j: int, i: int)
    requires
        0 <= j <= i,
        i < s.len(),
        ep_match_at(p, s, i),
        forall|t: int| j <= t < i ==> !ep_match_at(p, s, t),
    ensures
        ep_scan_from(p, s, j) == Some(ep_value_at(p, s, i)),
    decreases i - j,
{
    if j < i {
        lemma_ep_scan_leftmost(p, s, j + 1, i);
    }
}

proof fn lemma_sn_scan_leftmost(p: SnPat, s: Seq<char>, j: int, i: int)
    requires
        0 <= j <= i,
        i < s.len(),
        sn_match_at(p, s, i),
        forall|t: int| j <= t < i ==> !sn_match_at(p, s, t),
    ensures
        sn_scan_from(p, s, j) == Some(sn_value_at(p, s, i)),
    decreases i - j,
{
    if j < i {
        lemma_sn_scan_leftmost(p, s, j + 1, i);
    }
}

/// Law: a version suffix on a dash-form episode marker is ignored — a
/// name whose first dash-form match reads `- NN` followed by `v` and a
/// digit parses to the value of `NN` alone; the suffix digit never
/// enters the episode number. Names where an earlier dash-form match
/// wins (a base title carrying its own dash-number) are outside this
/// statement, as is a name ending in the compressed-archive suffix.
pub proof fn lemma_version_suffix_ignored(s: Seq<char>, i: int)
    requires
        0 <= i,
        i + 2 < s.len(),
        s[i] == '-',
        s[i + 1] == ' ',
        1 <= digit_run(s, i + 2) <= 4,
        0 < digits_val(s.subrange(i + 2, i + 2 + digit_run(s, i + 2))) < 1000,
        i + 2 + digit_run(s, i + 2) + 2 <= s.len(),
        s[i + 2 + digit_run(s, i + 2)] == 'v',
        is_digit(s[i + 3 + digit_run(s, i + 2)]),
        e1_tail_ok(s, i + 4 + digit_run(s, i + 2)),
        forall|j: int| 0 <= j < i ==> !e1_match_at(s, j),
        !crate::text::ends_with(s, ".zst"@),
    ensures
        spec_parse_episode(s) == Some(
            digits_val(s.subrange(i + 2, i + 2 + digit_run(s, i + 2))) as u32,
        ),
{
    let d = digit_run(s, i + 2);
    assert(e1_match_at(s, i));
    lemma_ep_scan_leftmost(EpPat::Dash, s, 0, i);
    assert(ep_value_at(EpPat::Dash, s, i) == digits_val(s.subrange(i + 2, i + 2 + d)));
    assert(strip_zst(s) == s);
}

/// Law: a combined `SxxEyy` marker parses to season `xx` and episode
/// `yy`, when it is the leftmost such marker, no dash-form episode
/// number stands anywhere in the name, and the digits end at a word
/// boundary. The season digits and episode digits are read exactly as
/// they stand.
pub proof fn lemma_sxx_eyy(s: Seq<char>, i: int)
    requires
        0 <= i,
        i + 1 < s.len(),
        wb(s, i),
        lower_char(s[i]) == 's',
        1 <= digit_run(s, i + 1) <= 2,
        i + 1 + digit_run(s, i + 1) < s.len(),
        lower_char(s[i + 1 + digit_run(s, i + 1)]) == 'e',
        1 <= digit_run(s, i + 2 + digit_run(s, i + 1)) <= 3,
        0 < digits_val(
            s.subrange(i + 1, i + 1 + digit_run(s, i + 1)),
        ) < 100,
        0 < digits_val(
            s.subrange(
                i + 2 + digit_run(s, i + 1),
                i + 2 + digit_run(s, i + 1) + digit_run(s, i + 2 + digit_run(s, i + 1)),
            ),
        ) < 1000,
        ep_in_range(ep_scan_from(EpPat::Dash, s, 0)) is None,
        forall|j: int| 0 <= j < i ==> !e2_match_at(s, j),
        forall|j: int| 0 <= j < i ==> !sn_sep_match_at(s, j),
        !crate::text::ends_with(s, ".zst"@),
    ensures
        spec_parse_episode(s) == Some(
            digits_val(
                s.subrange(
                    i + 2 + digit_run(s, i + 1),
                    i + 2 + digit_run(s, i + 1) + digit_run(s, i + 2 + digit_run(s, i + 1)),
                ),
            ) as u32,
        ),
        spec_parse_season(s) == Some(
            digits_val(s.subrange(i + 1, i + 1 + digit_run(s, i + 1))) as u32,
        ),
{
    let d = digit_run(s, i + 1);
    let e = digit_run(s, i + 2 + d);
    lemma_digit_run_in_bounds(s, i + 2 + d);
    assert(is_digit(s[i + 2 + d]));
    assert(e2_match_at(s, i));
    lemma_ep_scan_leftmost(EpPat::SeasonEp, s, 0, i);
    assert(ep_value_at(EpPat::SeasonEp, s, i) == digits_val(
        s.subrange(i + 2 + d, i + 2 + d + e),
    ));
    assert(strip_zst(s) == s);
    assert(run_len(s, i + 1 + d, CharClass::WSpace) == 0) by {
        assert(!crate::text::is_wspace(s[i + 1 + d]));
    }
    assert(sn_sep_match_at(s, i));
    lemma_sn_scan_leftmost(SnPat::SEp, s, 0, i);
    assert(sn_value_at(SnPat::SEp, s, i) == digits_val(s.subrange(i + 1, i + 1 + d)));
}

} // verus!
