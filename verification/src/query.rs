//! Free-text query parser and search-query expander: turns a user query
//! into a show name, optional season and episode and a batch-intent
//! flag, and expands the parsed intent into an ordered list of search
//! strings to try against an external title-search source.

use vstd::prelude::*;

use crate::text::{
    char_is_wspace, chars_to_string, ci_kw_at, contains_seq, digit_run,
    digit_run_at, is_wspace, join_char, join_runs, kw_at,
    lemma_digit_run_in_bounds, lemma_digits_val_bound, lemma_pow10_mono, lower_char, lower_seq,
    lower_vec, pad2_digits, pow10, push_dec, push_pad2, push_seq, push_str_chars, run_len,
    run_len_at, runs_from, seq_contains, split_runs, to_chars, to_lower_char, wa, wa_at, wb,
    wb_at, CharClass, dec_digits,
};
use crate::batch::str_views;
use crate::nyaa::NyaaResult;
use crate::filename::{
    capped_digits, read_capped_pub, sn_kw_num_match_at, sn_kw_num_try_at, sn_kw_num_value,
    sn_only_match_at,
};

verus! {

/// A free-text query resolved into structured intent.
#[derive(Debug, Clone, PartialEq)]
pub struct ParsedQuery {
    pub show_name: String,
    pub season: Option<u32>,
    pub episode: Option<u32>,
    pub is_batch_request: bool,
    pub raw_query: String,
}

pub ghost struct QueryModel {
    pub show: Seq<char>,
    pub season: Option<u32>,
    pub episode: Option<u32>,
    pub batch: bool,
    pub raw: Seq<char>,
}

impl View for ParsedQuery {
    type V = QueryModel;

    open spec fn view(&self) -> QueryModel {
        QueryModel {
            show: self.show_name@,
            season: self.season,
            episode: self.episode,
            batch: self.is_batch_request,
            raw: self.raw_query@,
        }
    }
}

// ---------------------------------------------------------------------------
// Trimming and show-name normalization
// ---------------------------------------------------------------------------

pub open spec fn ltrim_ws(s: Seq<char>) -> Seq<char>
    decreases s.len(),
{
    if s.len() > 0 && is_wspace(s[0]) {
        ltrim_ws(s.drop_first())
    } else {
        s
    }
}

pub open spec fn rtrim_ws(s: Seq<char>) -> Seq<char>
    decreases s.len(),
{
    if s.len() > 0 && is_wspace(s.last()) {
        rtrim_ws(s.drop_last())
    } else {
        s
    }
}

pub open spec fn trim_ws(s: Seq<char>) -> Seq<char> {
    rtrim_ws(ltrim_ws(s))
}

proof fn lemma_ltrim(s: Seq<char>, a: int)
    requires
        0 <= a <= s.len(),
        forall|t: int| 0 <= t < a ==> is_wspace(s[t]),
        a == s.len() || !is_wspace(s[a]),
    ensures
        ltrim_ws(s) == s.subrange(a, s.len() as int),
    decreases s.len(),
{
    if a > 0 {
        lemma_ltrim(s.drop_first(), a - 1);
        assert(s.drop_first().subrange(a - 1, s.len() - 1) =~= s.subrange(a, s.len() as int));
    } else {
        assert(s.subrange(0, s.len() as int) =~= s);
    }
}

proof fn lemma_rtrim(s: Seq<char>, b: int)
    requires
        0 <= b <= s.len(),
        forall|t: int| b <= t < s.len() ==> is_wspace(s[t]),
        b == 0 || !is_wspace(s[b - 1]),
    ensures
        rtrim_ws(s) == s.subrange(0, b),
    decreases s.len(),
{
    if b < s.len() {
        lemma_rtrim(s.drop_last(), b);
        assert(s.drop_last().subrange(0, b) =~= s.subrange(0, b));
    } else {
        assert(s.subrange(0, s.len() as int) =~= s);
    }
}

/// Copies the whitespace-trimmed middle of a character vector.
pub fn trim_chars(v: &Vec<char>) -> (r: Vec<char>)
    ensures
        r@ == trim_ws(v@),
{
    let n = v.len();
    let mut a: usize = 0;
    while a < n && char_is_wspace(v[a])
        invariant
            a <= n,
            n == v@.len(),
            forall|t: int| 0 <= t < a ==> is_wspace(v@[t]),
        decreases n - a,
    {
        a += 1;
    }
    let mut b: usize = n;
    while b > a && char_is_wspace(v[b - 1])
        invariant
            a <= b <= n,
            n == v@.len(),
            forall|t: int| b <= t < n ==> is_wspace(v@[t]),
        decreases b,
    {
        b -= 1;
    }
    proof {
        lemma_ltrim(v@, a as int);
        let mid = v@.subrange(a as int, n as int);
        lemma_rtrim(mid, b - a);
        assert(mid.subrange(0, b - a) =~= v@.subrange(a as int, b as int));
    }
    let mut r: Vec<char> = Vec::new();
    let mut t = a;
    while t < b
        invariant
            a <= t <= b,
            b <= v@.len(),
            r@ == v@.subrange(a as int, t as int),
        decreases b - t,
    {
        r.push(v[t]);
        t += 1;
        proof {
            assert(r@ =~= v@.subrange(a as int, t as int));
        }
    }
    proof {
        assert(r@ =~= trim_ws(v@));
    }
    r
}

/// A trailing character dropped by show-name normalization.
pub open spec fn is_trail_char(c: char) -> bool {
    c == '-' || c == ':' || is_wspace(c)
}

pub open spec fn trim_trail(s: Seq<char>) -> Seq<char>
    decreases s.len(),
{
    if s.len() > 0 && is_trail_char(s.last()) {
        trim_trail(s.drop_last())
    } else {
        s
    }
}

/// The normalized show name: trailing separator punctuation dropped,
/// then whitespace-separated words joined by single spaces.
pub open spec fn spec_normalize(s: Seq<char>) -> Seq<char> {
    join_char(' ', runs_from(trim_trail(s), 0, CharClass::NonSpace))
}

proof fn lemma_trim_trail(s: Seq<char>, b: int)
    requires
        0 <= b <= s.len(),
        forall|t: int| b <= t < s.len() ==> is_trail_char(s[t]),
        b == 0 || !is_trail_char(s[b - 1]),
    ensures
        trim_trail(s) == s.subrange(0, b),
    decreases s.len(),
{
    if b < s.len() {
        lemma_trim_trail(s.drop_last(), b);
        assert(s.drop_last().subrange(0, b) =~= s.subrange(0, b));
    } else {
        assert(s.subrange(0, s.len() as int) =~= s);
    }
}

/// Normalizes a show name given as a character vector.
fn normalize_chars(v: &Vec<char>) -> (r: String)
    ensures
        r@ == spec_normalize(v@),
{
    let n = v.len();
    let mut b: usize = n;
    while b > 0 && (v[b - 1] == '-' || v[b - 1] == ':' || char_is_wspace(v[b - 1]))
        invariant
            b <= n,
            n == v@.len(),
            forall|t: int| b <= t < n ==> is_trail_char(v@[t]),
        decreases b,
    {
        b -= 1;
    }
    let mut w: Vec<char> = Vec::new();
    let mut t: usize = 0;
    while t < b
        invariant
            t <= b,
            b <= v@.len(),
            w@ == v@.subrange(0, t as int),
        decreases b - t,
    {
        w.push(v[t]);
        t += 1;
        proof {
            assert(w@ =~= v@.subrange(0, t as int));
        }
    }
    proof {
        lemma_trim_trail(v@, b as int);
    }
    let runs = split_runs(&w, CharClass::NonSpace);
    let out = join_runs(&w, &runs, ' ', false);
    chars_to_string(&out)
}

/// Normalizes a show name: trailing punctuation trimmed and internal
/// whitespace collapsed.
pub fn normalize_show_name(name: &str) -> (r: String)
    ensures
        r@ == spec_normalize(name@),
{
    let v = to_chars(name);
    normalize_chars(&v)
}

// ---------------------------------------------------------------------------
// Batch indicators
// ---------------------------------------------------------------------------

/// A batch-intent token at position `i`: one of the words, the phrase
/// `all episodes`, or a numeric episode range, bounded by word
/// boundaries.
pub open spec fn bi_match_at(s: Seq<char>, i: int) -> bool {
    let d = digit_run(s, i);
    &&& 0 <= i < s.len()
    &&& wb(s, i)
    &&& {
        ||| (kw_at(s, i, "batch"@) && wa(s, i + 5))
        ||| (kw_at(s, i, "complete"@) && wa(s, i + 8))
        ||| (kw_at(s, i, "full"@) && wa(s, i + 4))
        ||| (kw_at(s, i, "all"@) && {
            let w = run_len(s, i + 3, CharClass::WSpace);
            let j = i + 3 + w;
            kw_at(s, j, "episode"@) && (wa(s, j + 7) || (j + 7 < s.len() && lower_char(s[j + 7])
                == 's' && wa(s, j + 8)))
        })
        ||| (d >= 1 && i + d < s.len() && s[i + d] == '-' && {
            let e = digit_run(s, i + d + 1);
            e >= 1 && wa(s, i + d + 1 + e)
        })
    }
}

pub open spec fn bi_found_from(s: Seq<char>, i: int) -> bool
    decreases s.len() - i,
    when 0 <= i <= s.len()
{
    if i >= s.len() {
        false
    } else if bi_match_at(s, i) {
        true
    } else {
        bi_found_from(s, i + 1)
    }
}

fn bi_try_at(v: &Vec<char>, i: usize) -> (r: bool)
    requires
        i < v@.len(),
    ensures
        r == bi_match_at(v@, i as int),
{
    let n = v.len();
    if !wb_at(v, i) {
        return false;
    }
    let batch = to_chars("batch");
    let complete = to_chars("complete");
    let full = to_chars("full");
    let all = to_chars("all");
    let episode = to_chars("episode");
    proof {
        reveal_strlit("batch");
        reveal_strlit("complete");
        reveal_strlit("full");
        reveal_strlit("all");
        reveal_strlit("episode");
    }
    if ci_kw_at(v, i, &batch) && wa_at(v, i + 5) {
        return true;
    }
    if ci_kw_at(v, i, &complete) && wa_at(v, i + 8) {
        return true;
    }
    if ci_kw_at(v, i, &full) && wa_at(v, i + 4) {
        return true;
    }
    if ci_kw_at(v, i, &all) {
        let w = run_len_at(v, i + 3, CharClass::WSpace);
        let j = i + 3 + w;
        if ci_kw_at(v, j, &episode) {
            if wa_at(v, j + 7) {
                return true;
            }
            if n - j > 7 && to_lower_char(v[j + 7]) == 's' && wa_at(v, j + 8) {
                return true;
            }
        }
    }
    let d = digit_run_at(v, i);
    if d >= 1 && i + d < n && v[i + d] == '-' {
        let e = digit_run_at(v, i + d + 1);
        if e >= 1 && wa_at(v, i + d + 1 + e) {
            return true;
        }
    }
    false
}

/// Scans a query for any batch-intent token.
fn bi_scan(v: &Vec<char>) -> (r: bool)
    ensures
        r == bi_found_from(v@, 0),
{
    let n = v.len();
    let mut i: usize = 0;
    while i < n
        invariant
            i <= n,
            n == v@.len(),
            bi_found_from(v@, 0) == bi_found_from(v@, i as int),
        decreases n - i,
    {
        if bi_try_at(v, i) {
            return true;
        }
        i += 1;
        proof {
            assert(bi_found_from(v@, i - 1) == bi_found_from(v@, i as int));
        }
    }
    false
}

// ---------------------------------------------------------------------------
// Combined season+episode patterns, in cascade order
// ---------------------------------------------------------------------------

/// The ordered season+episode patterns of the query cascade. A spaced
/// `S.. E..` form needs no entry of its own: the `SxEy` separator
/// already admits spaces, so every such query matches `SxEy` too.
#[derive(Clone, Copy, PartialEq, Eq, Structural)]
pub enum QPat {
    /// `SxxEyy` with optional spaces before the episode marker.
    SxEy,
    /// `NxM`, the cross notation.
    Cross,
    /// `Season N Episode M` in words.
    Words,
    /// `Sxx` followed by `Ep`, `Episode` or `E` and a number.
    SMarker,
    /// `Ep N`/`Episode N` alone, implying season one.
    EpOnly,
}

/// After a marker: optional spaces, one to three digits (the full run),
/// and a closing word boundary.
pub open spec fn q_ep_tail_at(s: Seq<char>, m: int) -> bool {
    let w = run_len(s, m, CharClass::WSpace);
    let e = digit_run(s, m + w);
    &&& 0 <= m <= s.len()
    &&& 1 <= e <= 3
    &&& wa(s, m + w + e)
}

/// The episode value read by `q_ep_tail_at`.
pub open spec fn q_ep_tail_val(s: Seq<char>, m: int) -> nat {
    let w = run_len(s, m, CharClass::WSpace);
    capped_digits(s, m + w, 3)
}

pub open spec fn q_sxey_match_at(s: Seq<char>, i: int) -> bool {
    let d = digit_run(s, i + 1);
    let j = i + 1 + d;
    let w = run_len(s, j, CharClass::WSpace);
    &&& 0 <= i
    &&& i + 1 < s.len()
    &&& wb(s, i)
    &&& lower_char(s[i]) == 's'
    &&& 1 <= d <= 2
    &&& j + w < s.len()
    &&& lower_char(s[j + w]) == 'e'
    &&& q_ep_tail_at(s, j + w + 1)
}

pub open spec fn q_cross_match_at(s: Seq<char>, i: int) -> bool {
    let d = digit_run(s, i);
    let j = i + d;
    let e = digit_run(s, j + 1);
    &&& 0 <= i < s.len()
    &&& wb(s, i)
    &&& 1 <= d <= 2
    &&& j < s.len()
    &&& lower_char(s[j]) == 'x'
    &&& 1 <= e <= 3
    &&& wa(s, j + 1 + e)
}

pub open spec fn q_words_match_at(s: Seq<char>, i: int) -> bool {
    let w1 = run_len(s, i + 6, CharClass::WSpace);
    let d = digit_run(s, i + 6 + w1);
    let j = i + 6 + w1 + d;
    let w2 = run_len(s, j, CharClass::WSpace);
    &&& 0 <= i
    &&& wb(s, i)
    &&& kw_at(s, i, "season"@)
    &&& 1 <= d <= 2
    &&& kw_at(s, j + w2, "episode"@)
    &&& q_ep_tail_at(s, j + w2 + 7)
}

/// The alternation `Ep`, `Episode`, `E` after `Sxx`, in order: the
/// digit start of the first alternative whose tail fits.
pub open spec fn q_smarker_rest(s: Seq<char>, j: int) -> Option<int> {
    if kw_at(s, j, "ep"@) && q_ep_tail_at(s, j + 2) {
        Some(j + 2)
    } else if kw_at(s, j, "episode"@) && q_ep_tail_at(s, j + 7) {
        Some(j + 7)
    } else if kw_at(s, j, "e"@) && q_ep_tail_at(s, j + 1) {
        Some(j + 1)
    } else {
        None
    }
}

pub open spec fn q_smarker_match_at(s: Seq<char>, i: int) -> bool {
    let d = digit_run(s, i + 1);
    let j = i + 1 + d;
    let w = run_len(s, j, CharClass::WSpace);
    &&& 0 <= i
    &&& i + 1 < s.len()
    &&& wb(s, i)
    &&& lower_char(s[i]) == 's'
    &&& 1 <= d <= 2
    &&& q_smarker_rest(s, j + w) is Some
}

/// `Ep` or `Episode` alone: the digit start of the matching form.
pub open spec fn q_eponly_rest(s: Seq<char>, i: int) -> Option<int> {
    if kw_at(s, i, "ep"@) && q_ep_tail_at(s, i + 2) {
        Some(i + 2)
    } else if kw_at(s, i, "episode"@) && q_ep_tail_at(s, i + 7) {
        Some(i + 7)
    } else {
        None
    }
}

pub open spec fn q_eponly_match_at(s: Seq<char>, i: int) -> bool {
    &&& 0 <= i <= s.len()
    &&& wb(s, i)
    &&& q_eponly_rest(s, i) is Some
}

pub open spec fn q_match_at(p: QPat, s: Seq<char>, i: int) -> bool {
    match p {
        QPat::SxEy => q_sxey_match_at(s, i),
        QPat::Cross => q_cross_match_at(s, i),
        QPat::Words => q_words_match_at(s, i),
        QPat::SMarker => q_smarker_match_at(s, i),
        QPat::EpOnly => q_eponly_match_at(s, i),
    }
}

/// The (season, episode) captured by pattern `p` at position `i`; the
/// episode-only form implies season one.
pub open spec fn q_values_at(p: QPat, s: Seq<char>, i: int) -> (nat, nat) {
    match p {
        QPat::SxEy => {
            let d = digit_run(s, i + 1);
            let j = i + 1 + d;
            let w = run_len(s, j, CharClass::WSpace);
            (capped_digits(s, i + 1, 2), q_ep_tail_val(s, j + w + 1))
        },
        QPat::Cross => {
            let d = digit_run(s, i);
            (capped_digits(s, i, 2), capped_digits(s, i + d + 1, 3))
        },
        QPat::Words => {
            let w1 = run_len(s, i + 6, CharClass::WSpace);
            let d = digit_run(s, i + 6 + w1);
            let j = i + 6 + w1 + d;
            let w2 = run_len(s, j, CharClass::WSpace);
            (capped_digits(s, i + 6 + w1, 2), q_ep_tail_val(s, j + w2 + 7))
        },
        QPat::SMarker => {
            let d = digit_run(s, i + 1);
            let j = i + 1 + d;
            let w = run_len(s, j, CharClass::WSpace);
            (capped_digits(s, i + 1, 2), q_ep_tail_val(s, q_smarker_rest(s, j + w)->0))
        },
        QPat::EpOnly => (1, q_ep_tail_val(s, q_eponly_rest(s, i)->0)),
    }
}

/// Leftmost match of a query pattern: position, season and episode.
pub open spec fn q_scan_from(p: QPat, s: Seq<char>, i: int) -> Option<(int, nat, nat)>
    decreases s.len() - i,
    when 0 <= i <= s.len()
{
    if i >= s.len() {
        None
    } else if q_match_at(p, s, i) {
        Some((i, q_values_at(p, s, i).0, q_values_at(p, s, i).1))
    } else {
        q_scan_from(p, s, i + 1)
    }
}

// ---------------------------------------------------------------------------
// Executable query pattern matching
// ---------------------------------------------------------------------------

/// Reads the episode tail after a marker, if it fits.
fn q_ep_tail_try(v: &Vec<char>, m: usize) -> (r: Option<u32>)
    requires
        m <= v@.len(),
    ensures
        r is Some <==> q_ep_tail_at(v@, m as int),
        r is Some ==> r->0 as nat == q_ep_tail_val(v@, m as int) && r->0 < 1000,
{
    let n = v.len();
    let w = run_len_at(v, m, CharClass::WSpace);
    let e = digit_run_at(v, m + w);
    if 1 <= e && e <= 3 && wa_at(v, m + w + e) {
        let val = crate::filename::read_capped_pub(v, m + w, 3);
        proof {
            lemma_digit_run_in_bounds(v@, m + w as int);
            lemma_digits_val_bound(v@.subrange(m + w as int, m + w + e));
            lemma_pow10_mono(e as nat, 3);
            assert(pow10(3) == 1000) by {
                reveal_with_fuel(pow10, 5);
            }
        }
        Some(val)
    } else {
        None
    }
}

fn q_try_at(p: QPat, v: &Vec<char>, i: usize) -> (r: Option<(u32, u32)>)
    requires
        i < v@.len(),
    ensures
        r is Some <==> q_match_at(p, v@, i as int),
        r is Some ==> (r->0).0 as nat == q_values_at(p, v@, i as int).0 && (r->0).1 as nat
            == q_values_at(p, v@, i as int).1 && (r->0).0 < 100 && (r->0).1 < 1000,
{
    let n = v.len();
    match p {
        QPat::SxEy => {
            if !wb_at(v, i) || to_lower_char(v[i]) != 's' {
                return None;
            }
            let d = digit_run_at(v, i + 1);
            if d < 1 || d > 2 {
                return None;
            }
            let j = i + 1 + d;
            let w = run_len_at(v, j, CharClass::WSpace);
            if j + w >= n || to_lower_char(v[j + w]) != 'e' {
                return None;
            }
            match q_ep_tail_try(v, j + w + 1) {
                Some(ep) => Some((read_small(v, i + 1), ep)),
                None => None,
            }
        },
        QPat::Cross => {
            if !wb_at(v, i) {
                return None;
            }
            let d = digit_run_at(v, i);
            if d < 1 || d > 2 {
                return None;
            }
            let j = i + d;
            if j >= n || to_lower_char(v[j]) != 'x' {
                return None;
            }
            let e = digit_run_at(v, j + 1);
            if e < 1 || e > 3 {
                return None;
            }
            if !wa_at(v, j + 1 + e) {
                return None;
            }
            let sn = read_small(v, i);
            let ep = crate::filename::read_capped_pub(v, j + 1, 3);
            proof {
                lemma_digit_run_in_bounds(v@, j + 1 as int);
                lemma_digits_val_bound(v@.subrange(j + 1 as int, j + 1 + e));
                lemma_pow10_mono(e as nat, 3);
                assert(pow10(3) == 1000) by {
                    reveal_with_fuel(pow10, 5);
                }
            }
            Some((sn, ep))
        },
        QPat::Words => {
            let season = to_chars("season");
            let episode = to_chars("episode");
            proof {
                reveal_strlit("season");
                reveal_strlit("episode");
            }
            if !wb_at(v, i) || !ci_kw_at(v, i, &season) {
                return None;
            }
            let w1 = run_len_at(v, i + 6, CharClass::WSpace);
            let d = digit_run_at(v, i + 6 + w1);
            if d < 1 || d > 2 {
                return None;
            }
            let j = i + 6 + w1 + d;
            let w2 = run_len_at(v, j, CharClass::WSpace);
            if !ci_kw_at(v, j + w2, &episode) {
                return None;
            }
            match q_ep_tail_try(v, j + w2 + 7) {
                Some(ep) => Some((read_small(v, i + 6 + w1), ep)),
                None => None,
            }
        },
        QPat::SMarker => {
            if !wb_at(v, i) || to_lower_char(v[i]) != 's' {
                return None;
            }
            let d = digit_run_at(v, i + 1);
            if d < 1 || d > 2 {
                return None;
            }
            let j = i + 1 + d;
            let w = run_len_at(v, j, CharClass::WSpace);
            let m = j + w;
            let ep_kw = to_chars("ep");
            let episode_kw = to_chars("episode");
            let e_kw = to_chars("e");
            proof {
                reveal_strlit("ep");
                reveal_strlit("episode");
                reveal_strlit("e");
            }
            let tail: Option<u32> = if ci_kw_at(v, m, &ep_kw) && q_ep_tail_try(v, m + 2).is_some() {
                q_ep_tail_try(v, m + 2)
            } else if ci_kw_at(v, m, &episode_kw) && q_ep_tail_try(v, m + 7).is_some() {
                q_ep_tail_try(v, m + 7)
            } else if ci_kw_at(v, m, &e_kw) && q_ep_tail_try(v, m + 1).is_some() {
                q_ep_tail_try(v, m + 1)
            } else {
                None
            };
            match tail {
                Some(ep) => Some((read_small(v, i + 1), ep)),
                None => None,
            }
        },
        QPat::EpOnly => {
            if !wb_at(v, i) {
                return None;
            }
            let ep_kw = to_chars("ep");
            let episode_kw = to_chars("episode");
            proof {
                reveal_strlit("ep");
                reveal_strlit("episode");
            }
            let tail: Option<u32> = if ci_kw_at(v, i, &ep_kw) && q_ep_tail_try(v, i + 2).is_some() {
                q_ep_tail_try(v, i + 2)
            } else if ci_kw_at(v, i, &episode_kw) && q_ep_tail_try(v, i + 7).is_some() {
                q_ep_tail_try(v, i + 7)
            } else {
                None
            };
            match tail {
                Some(ep) => Some((1, ep)),
                None => None,
            }
        },
    }
}

/// Reads a one-or-two digit capture.
fn read_small(v: &Vec<char>, i: usize) -> (r: u32)
    requires
        i <= v@.len(),
        1 <= digit_run(v@, i as int) <= 2,
    ensures
        r as nat == capped_digits(v@, i as int, 2),
        r < 100,
{
    let r = crate::filename::read_capped_pub(v, i, 2);
    proof {
        let d = digit_run(v@, i as int);
        lemma_digit_run_in_bounds(v@, i as int);
        lemma_digits_val_bound(v@.subrange(i as int, i + d));
        lemma_pow10_mono(d as nat, 2);
        assert(pow10(2) == 100) by {
            reveal_with_fuel(pow10, 4);
        }
    }
    r
}

fn q_scan(p: QPat, v: &Vec<char>) -> (r: Option<(usize, u32, u32)>)
    ensures
        r is Some <==> q_scan_from(p, v@, 0) is Some,
        r is Some ==> {
            let (pos, sn, ep) = r->0;
            &&& q_scan_from(p, v@, 0)->0 == (pos as int, sn as nat, ep as nat)
            &&& pos <= v@.len()
            &&& sn < 100
            &&& ep < 1000
        },
{
    let n = v.len();
    let mut i: usize = 0;
    while i < n
        invariant
            i <= n,
            n == v@.len(),
            q_scan_from(p, v@, 0) == q_scan_from(p, v@, i as int),
        decreases n - i,
    {
        if let Some((sn, ep)) = q_try_at(p, v, i) {
            return Some((i, sn, ep));
        }
        i += 1;
        proof {
            assert(q_scan_from(p, v@, i - 1) == q_scan_from(p, v@, i as int));
        }
    }
    None
}

// ---------------------------------------------------------------------------
// Season-only fallback patterns
// ---------------------------------------------------------------------------

/// Leftmost bare `Sxx` token: position and value.
pub open spec fn qso_s_scan_from(s: Seq<char>, i: int) -> Option<(int, nat)>
    decreases s.len() - i,
    when 0 <= i <= s.len()
{
    if i >= s.len() {
        None
    } else if sn_only_match_at(s, i) {
        Some((i, capped_digits(s, i + 1, 2)))
    } else {
        qso_s_scan_from(s, i + 1)
    }
}

/// Leftmost `Season N` phrase: position and value.
pub open spec fn qso_word_scan_from(s: Seq<char>, i: int) -> Option<(int, nat)>
    decreases s.len() - i,
    when 0 <= i <= s.len()
{
    if i >= s.len() {
        None
    } else if sn_kw_num_match_at(s, i, "season"@) {
        Some((i, sn_kw_num_value(s, i, "season"@)))
    } else {
        qso_word_scan_from(s, i + 1)
    }
}

fn qso_s_scan(v: &Vec<char>) -> (r: Option<(usize, u32)>)
    ensures
        r is Some <==> qso_s_scan_from(v@, 0) is Some,
        r is Some ==> {
            let (pos, sn) = r->0;
            &&& qso_s_scan_from(v@, 0)->0 == (pos as int, sn as nat)
            &&& pos <= v@.len()
            &&& sn < 100
        },
{
    let n = v.len();
    let mut i: usize = 0;
    while i < n
        invariant
            i <= n,
            n == v@.len(),
            qso_s_scan_from(v@, 0) == qso_s_scan_from(v@, i as int),
        decreases n - i,
    {
        let hit = wb_at(v, i) && to_lower_char(v[i]) == 's';
        if hit {
            let d = digit_run_at(v, i + 1);
            if 1 <= d && d <= 2 && wa_at(v, i + 1 + d) {
                let sn = read_small(v, i + 1);
                return Some((i, sn));
            }
        }
        proof {
            assert(!sn_only_match_at(v@, i as int));
        }
        i += 1;
        proof {
            assert(qso_s_scan_from(v@, i - 1) == qso_s_scan_from(v@, i as int));
        }
    }
    None
}

fn qso_word_scan(v: &Vec<char>) -> (r: Option<(usize, u32)>)
    ensures
        r is Some <==> qso_word_scan_from(v@, 0) is Some,
        r is Some ==> {
            let (pos, sn) = r->0;
            &&& qso_word_scan_from(v@, 0)->0 == (pos as int, sn as nat)
            &&& pos <= v@.len()
            &&& sn < 10000
        },
{
    let n = v.len();
    let season = to_chars("season");
    proof {
        reveal_strlit("season");
    }
    let mut i: usize = 0;
    while i < n
        invariant
            i <= n,
            n == v@.len(),
            season@ == "season"@,
            qso_word_scan_from(v@, 0) == qso_word_scan_from(v@, i as int),
        decreases n - i,
    {
        if let Some(sn) = sn_kw_num_try_at(v, i, &season) {
            return Some((i, sn));
        }
        i += 1;
        proof {
            assert(qso_word_scan_from(v@, i - 1) == qso_word_scan_from(v@, i as int));
        }
    }
    None
}

// ---------------------------------------------------------------------------
// The query parser
// ---------------------------------------------------------------------------

/// The combined season+episode cascade.
pub open spec fn q_cascade(s: Seq<char>) -> Option<(int, nat, nat)> {
    let r1 = q_scan_from(QPat::SxEy, s, 0);
    let r2 = q_scan_from(QPat::Cross, s, 0);
    let r3 = q_scan_from(QPat::Words, s, 0);
    let r4 = q_scan_from(QPat::SMarker, s, 0);
    let r5 = q_scan_from(QPat::EpOnly, s, 0);
    if r1 is Some {
        r1
    } else if r2 is Some {
        r2
    } else if r3 is Some {
        r3
    } else if r4 is Some {
        r4
    } else if r5 is Some {
        r5
    } else {
        None
    }
}

/// The season-only fallback cascade.
pub open spec fn qso_cascade(s: Seq<char>) -> Option<(int, nat)> {
    let r1 = qso_s_scan_from(s, 0);
    let r2 = qso_word_scan_from(s, 0);
    if r1 is Some {
        r1
    } else if r2 is Some {
        r2
    } else {
        None
    }
}

/// The parsed form of a free-text query: everything before the first
/// season/episode marker is the show name, an episode-less season means
/// a batch request, and a batch keyword sets the batch flag outright.
pub open spec fn spec_parse_query(input: Seq<char>) -> QueryModel {
    let q = trim_ws(input);
    let kw = bi_found_from(q, 0);
    match q_cascade(q) {
        Some((p, sn, ep)) => QueryModel {
            show: spec_normalize(q.subrange(0, p)),
            season: Some(sn as u32),
            episode: Some(ep as u32),
            batch: kw,
            raw: q,
        },
        None => match qso_cascade(q) {
            Some((p, sn)) => QueryModel {
                show: spec_normalize(q.subrange(0, p)),
                season: Some(sn as u32),
                episode: None,
                batch: true,
                raw: q,
            },
            None => QueryModel {
                show: spec_normalize(q),
                season: None,
                episode: None,
                batch: kw,
                raw: q,
            },
        },
    }
}

/// Copies the first `p` characters.
fn prefix_chars(v: &Vec<char>, p: usize) -> (r: Vec<char>)
    requires
        p <= v@.len(),
    ensures
        r@ == v@.subrange(0, p as int),
{
    let mut r: Vec<char> = Vec::new();
    let mut t: usize = 0;
    while t < p
        invariant
            t <= p,
            p <= v@.len(),
            r@ == v@.subrange(0, t as int),
        decreases p - t,
    {
        r.push(v[t]);
        t += 1;
        proof {
            assert(r@ =~= v@.subrange(0, t as int));
        }
    }
    r
}

/// Parses a free-text query into show name, optional season and
/// episode, and the batch-intent flag; the trimmed input is retained as
/// the raw query.
pub fn parse_query(query: &str) -> (r: ParsedQuery)
    ensures
        r@ == spec_parse_query(query@),
        r.season matches Some(s) ==> s < 10000,
        r.episode matches Some(e) ==> e < 1000,
{
    let v0 = to_chars(query);
    let q = trim_chars(&v0);
    let kw = bi_scan(&q);
    let raw = chars_to_string(&q);
    let se: Option<(usize, u32, u32)> = {
        let r1 = q_scan(QPat::SxEy, &q);
        if r1.is_some() {
            r1
        } else {
            let r2 = q_scan(QPat::Cross, &q);
            if r2.is_some() {
                r2
            } else {
                let r3 = q_scan(QPat::Words, &q);
                if r3.is_some() {
                    r3
                } else {
                    let r4 = q_scan(QPat::SMarker, &q);
                    if r4.is_some() {
                        r4
                    } else {
                        q_scan(QPat::EpOnly, &q)
                    }
                }
            }
        }
    };
    if let Some((pos, sn, ep)) = se {
        let prefix = prefix_chars(&q, pos);
        let show = normalize_chars(&prefix);
        return ParsedQuery {
            show_name: show,
            season: Some(sn),
            episode: Some(ep),
            is_batch_request: kw,
            raw_query: raw,
        };
    }
    let so: Option<(usize, u32)> = {
        let r1 = qso_s_scan(&q);
        if r1.is_some() {
            r1
        } else {
            qso_word_scan(&q)
        }
    };
    if let Some((pos, sn)) = so {
        let prefix = prefix_chars(&q, pos);
        let show = normalize_chars(&prefix);
        return ParsedQuery {
            show_name: show,
            season: Some(sn),
            episode: None,
            is_batch_request: true,
            raw_query: raw,
        };
    }
    let show = normalize_chars(&q);
    ParsedQuery {
        show_name: show,
        season: None,
        episode: None,
        is_batch_request: kw,
        raw_query: raw,
    }
}

// ---------------------------------------------------------------------------
// Number formatting for search strings
// ---------------------------------------------------------------------------

/// Formats an episode number, zero-padding values below ten.
pub fn format_episode(ep: u32) -> (r: String)
    ensures
        r@ == pad2_digits(ep as nat),
{
    let mut c: Vec<char> = Vec::new();
    push_pad2(&mut c, ep);
    chars_to_string(&c)
}

/// Formats a season number, zero-padding values below ten.
pub fn format_season(season: u32) -> (r: String)
    ensures
        r@ == pad2_digits(season as nat),
{
    let mut c: Vec<char> = Vec::new();
    push_pad2(&mut c, season);
    chars_to_string(&c)
}

pub open spec fn ord_suffix_of(n: nat) -> Seq<char> {
    if n % 10 == 1 && n % 100 != 11 {
        "st"@
    } else if n % 10 == 2 && n % 100 != 12 {
        "nd"@
    } else if n % 10 == 3 && n % 100 != 13 {
        "rd"@
    } else {
        "th"@
    }
}

/// The ordinal season phrase of a number.
pub open spec fn spec_ordinal(n: nat) -> Seq<char> {
    dec_digits(n) + ord_suffix_of(n) + " Season"@
}

/// Renders a season number as an ordinal season phrase.
pub fn ordinal(n: u32) -> (r: String)
    ensures
        r@ == spec_ordinal(n as nat),
{
    let mut c: Vec<char> = Vec::new();
    push_dec(&mut c, n);
    if n % 10 == 1 && n % 100 != 11 {
        push_str_chars(&mut c, "st");
    } else if n % 10 == 2 && n % 100 != 12 {
        push_str_chars(&mut c, "nd");
    } else if n % 10 == 3 && n % 100 != 13 {
        push_str_chars(&mut c, "rd");
    } else {
        push_str_chars(&mut c, "th");
    }
    push_str_chars(&mut c, " Season");
    proof {
        assert(c@ =~= spec_ordinal(n as nat));
    }
    chars_to_string(&c)
}

// ---------------------------------------------------------------------------
// Query generation
// ---------------------------------------------------------------------------

/// Batch queries for a first season.
pub open spec fn batch_queries_s1(s: Seq<char>) -> Seq<Seq<char>> {
    seq![
        s + " "@ + "batch"@,
        s + " "@ + "complete"@,
        s + " "@ + "1080p batch"@,
        s + " "@ + "Season 1"@,
        s + " "@ + "S01"@,
    ]
}

/// Batch queries for a later season.
pub open spec fn batch_queries_sn(s: Seq<char>, n: nat) -> Seq<Seq<char>> {
    seq![
        s + " "@ + "S"@ + pad2_digits(n) + " batch"@,
        s + " "@ + "Season "@ + dec_digits(n) + " batch"@,
        s + " "@ + "S"@ + pad2_digits(n),
        s + " "@ + "Season "@ + dec_digits(n),
        s + " "@ + dec_digits(n) + "nd Season"@,
    ]
}

/// Batch queries with no season given.
pub open spec fn batch_queries_any(s: Seq<char>) -> Seq<Seq<char>> {
    seq![s + " "@ + "batch"@, s + " "@ + "complete"@, s]
}

pub open spec fn spec_batch_queries(s: Seq<char>, season: Option<u32>) -> Seq<Seq<char>> {
    match season {
        Some(n) => if n == 1 {
            batch_queries_s1(s)
        } else {
            batch_queries_sn(s, n as nat)
        },
        None => batch_queries_any(s),
    }
}

/// Episode queries for the first (or only) season.
pub open spec fn ep_queries_s1(s: Seq<char>, ep: nat) -> Seq<Seq<char>> {
    let base = seq![
        s + " "@ + pad2_digits(ep),
        s + " "@ + "- "@ + pad2_digits(ep),
        s + " "@ + "E"@ + pad2_digits(ep),
        s + " "@ + "Episode "@ + pad2_digits(ep),
        s + " "@ + pad2_digits(ep) + " 1080p"@,
    ];
    if ep >= 10 {
        base.push(s + " "@ + dec_digits(ep))
    } else {
        base
    }
}

/// Episode queries for a later season, closing with the rough
/// absolute-number estimate of twelve episodes per season.
pub open spec fn ep_queries_sn(s: Seq<char>, n: nat, ep: nat) -> Seq<Seq<char>> {
    seq![
        s + " "@ + "S"@ + pad2_digits(n) + " - "@ + pad2_digits(ep),
        s + " "@ + "S"@ + pad2_digits(n) + " "@ + pad2_digits(ep),
        s + " "@ + "Season "@ + dec_digits(n) + " - "@ + pad2_digits(ep),
        s + " "@ + spec_ordinal(n) + " "@ + pad2_digits(ep),
        s + " "@ + "Part "@ + dec_digits(n) + " "@ + pad2_digits(ep),
        s + " "@ + pad2_digits(((n - 1) * 12 + ep) as nat),
    ]
}

pub open spec fn spec_episode_queries(s: Seq<char>, season: Option<u32>, ep: nat) -> Seq<
    Seq<char>,
> {
    match season {
        Some(n) => if n == 1 {
            ep_queries_s1(s, ep)
        } else {
            ep_queries_sn(s, n as nat, ep)
        },
        None => ep_queries_s1(s, ep),
    }
}

/// Queries for a bare show name.
pub open spec fn spec_show_queries(s: Seq<char>) -> Seq<Seq<char>> {
    seq![s, s + " "@ + "1080p"@, s + " "@ + "complete"@]
}

/// Starts a query string with the show name and a space.
fn start_query(show: &Vec<char>) -> (r: Vec<char>)
    ensures
        r@ == show@ + " "@,
{
    let mut c: Vec<char> = Vec::new();
    push_seq(&mut c, show);
    push_str_chars(&mut c, " ");
    c
}

/// Generates the batch-request query variants for a parsed query.
pub fn generate_batch_queries(parsed: &ParsedQuery) -> (r: Vec<String>)
    ensures
        str_views(r@) == spec_batch_queries(parsed.show_name@, parsed.season),
        r@.len() >= 3,
{
    let show = to_chars(parsed.show_name.as_str());
    let mut out: Vec<String> = Vec::new();
    match parsed.season {
        Some(n) => {
            if n == 1 {
                let mut c1 = start_query(&show);
                push_str_chars(&mut c1, "batch");
                out.push(chars_to_string(&c1));
                let mut c2 = start_query(&show);
                push_str_chars(&mut c2, "complete");
                out.push(chars_to_string(&c2));
                let mut c3 = start_query(&show);
                push_str_chars(&mut c3, "1080p batch");
                out.push(chars_to_string(&c3));
                let mut c4 = start_query(&show);
                push_str_chars(&mut c4, "Season 1");
                out.push(chars_to_string(&c4));
                let mut c5 = start_query(&show);
                push_str_chars(&mut c5, "S01");
                out.push(chars_to_string(&c5));
                proof {
                    assert(str_views(out@) =~~= batch_queries_s1(parsed.show_name@));
                }
            } else {
                let mut c1 = start_query(&show);
                push_str_chars(&mut c1, "S");
                push_pad2(&mut c1, n);
                push_str_chars(&mut c1, " batch");
                out.push(chars_to_string(&c1));
                let mut c2 = start_query(&show);
                push_str_chars(&mut c2, "Season ");
                push_dec(&mut c2, n);
                push_str_chars(&mut c2, " batch");
                out.push(chars_to_string(&c2));
                let mut c3 = start_query(&show);
                push_str_chars(&mut c3, "S");
                push_pad2(&mut c3, n);
                out.push(chars_to_string(&c3));
                let mut c4 = start_query(&show);
                push_str_chars(&mut c4, "Season ");
                push_dec(&mut c4, n);
                out.push(chars_to_string(&c4));
                let mut c5 = start_query(&show);
                push_dec(&mut c5, n);
                push_str_chars(&mut c5, "nd Season");
                out.push(chars_to_string(&c5));
                proof {
                    assert(str_views(out@) =~~= batch_queries_sn(parsed.show_name@, n as nat));
                }
            }
        },
        None => {
            let mut c1 = start_query(&show);
            push_str_chars(&mut c1, "batch");
            out.push(chars_to_string(&c1));
            let mut c2 = start_query(&show);
            push_str_chars(&mut c2, "complete");
            out.push(chars_to_string(&c2));
            out.push(chars_to_string(&show));
            proof {
                assert(str_views(out@) =~~= batch_queries_any(parsed.show_name@));
            }
        },
    }
    out
}

/// Generates the specific-episode query variants for a parsed query.
pub fn generate_episode_queries(parsed: &ParsedQuery, episode: u32) -> (r: Vec<String>)
    requires
        parsed.season matches Some(n) ==> 1 <= n < 100000,
        episode < 100000,
    ensures
        str_views(r@) == spec_episode_queries(parsed.show_name@, parsed.season, episode as nat),
        r@.len() >= 3,
{
    let show = to_chars(parsed.show_name.as_str());
    let mut out: Vec<String> = Vec::new();
    let later: Option<u32> = match parsed.season {
        Some(n) => if n == 1 {
            None
        } else {
            Some(n)
        },
        None => None,
    };
    match later {
        None => {
            let mut c1 = start_query(&show);
            push_pad2(&mut c1, episode);
            out.push(chars_to_string(&c1));
            let mut c2 = start_query(&show);
            push_str_chars(&mut c2, "- ");
            push_pad2(&mut c2, episode);
            out.push(chars_to_string(&c2));
            let mut c3 = start_query(&show);
            push_str_chars(&mut c3, "E");
            push_pad2(&mut c3, episode);
            out.push(chars_to_string(&c3));
            let mut c4 = start_query(&show);
            push_str_chars(&mut c4, "Episode ");
            push_pad2(&mut c4, episode);
            out.push(chars_to_string(&c4));
            let mut c5 = start_query(&show);
            push_pad2(&mut c5, episode);
            push_str_chars(&mut c5, " 1080p");
            out.push(chars_to_string(&c5));
            if episode >= 10 {
                let mut c6 = start_query(&show);
                push_dec(&mut c6, episode);
                out.push(chars_to_string(&c6));
            }
            proof {
                assert(str_views(out@) =~~= spec_episode_queries(
                    parsed.show_name@,
                    parsed.season,
                    episode as nat,
                ));
            }
        },
        Some(n) => {
            let mut c1 = start_query(&show);
            push_str_chars(&mut c1, "S");
            push_pad2(&mut c1, n);
            push_str_chars(&mut c1, " - ");
            push_pad2(&mut c1, episode);
            out.push(chars_to_string(&c1));
            let mut c2 = start_query(&show);
            push_str_chars(&mut c2, "S");
            push_pad2(&mut c2, n);
            push_str_chars(&mut c2, " ");
            push_pad2(&mut c2, episode);
            out.push(chars_to_string(&c2));
            let mut c3 = start_query(&show);
            push_str_chars(&mut c3, "Season ");
            push_dec(&mut c3, n);
            push_str_chars(&mut c3, " - ");
            push_pad2(&mut c3, episode);
            out.push(chars_to_string(&c3));
            let mut c4 = start_query(&show);
            push_dec(&mut c4, n);
            if n % 10 == 1 && n % 100 != 11 {
                push_str_chars(&mut c4, "st");
            } else if n % 10 == 2 && n % 100 != 12 {
                push_str_chars(&mut c4, "nd");
            } else if n % 10 == 3 && n % 100 != 13 {
                push_str_chars(&mut c4, "rd");
            } else {
                push_str_chars(&mut c4, "th");
            }
            push_str_chars(&mut c4, " Season");
            push_str_chars(&mut c4, " ");
            push_pad2(&mut c4, episode);
            out.push(chars_to_string(&c4));
            let mut c5 = start_query(&show);
            push_str_chars(&mut c5, "Part ");
            push_dec(&mut c5, n);
            push_str_chars(&mut c5, " ");
            push_pad2(&mut c5, episode);
            out.push(chars_to_string(&c5));
            let absolute = (n - 1) * 12 + episode;
            let mut c6 = start_query(&show);
            push_pad2(&mut c6, absolute);
            out.push(chars_to_string(&c6));
            proof {
                assert(c4@ =~= parsed.show_name@ + " "@ + spec_ordinal(n as nat) + " "@
                    + pad2_digits(episode as nat));
                assert(str_views(out@) =~~= ep_queries_sn(
                    parsed.show_name@,
                    n as nat,
                    episode as nat,
                ));
            }
        },
    }
    out
}

/// Generates the bare show-name query variants.
pub fn generate_show_queries(parsed: &ParsedQuery) -> (r: Vec<String>)
    ensures
        str_views(r@) == spec_show_queries(parsed.show_name@),
        r@.len() >= 3,
{
    let show = to_chars(parsed.show_name.as_str());
    let mut out: Vec<String> = Vec::new();
    out.push(chars_to_string(&show));
    let mut c2 = start_query(&show);
    push_str_chars(&mut c2, "1080p");
    out.push(chars_to_string(&c2));
    let mut c3 = start_query(&show);
    push_str_chars(&mut c3, "complete");
    out.push(chars_to_string(&c3));
    proof {
        assert(str_views(out@) =~~= spec_show_queries(parsed.show_name@));
    }
    out
}

// ---------------------------------------------------------------------------
// Building the search query
// ---------------------------------------------------------------------------

/// A search invocation: the primary string, ordered alternatives, and
/// the parsed intent they were generated from.
#[derive(Debug, Clone)]
pub struct SearchQuery {
    pub primary: String,
    pub alternatives: Vec<String>,
    pub parsed: ParsedQuery,
}

pub ghost struct SearchModel {
    pub primary: Seq<char>,
    pub alternatives: Seq<Seq<char>>,
    pub parsed: QueryModel,
}

impl View for SearchQuery {
    type V = SearchModel;

    open spec fn view(&self) -> SearchModel {
        SearchModel {
            primary: self.primary@,
            alternatives: str_views(self.alternatives@),
            parsed: self.parsed@,
        }
    }
}

/// The generated query list of a parsed query: batch variants for batch
/// requests, episode variants for a specific episode, else show-name
/// variants.
pub open spec fn spec_queries(m: QueryModel) -> Seq<Seq<char>> {
    if m.batch {
        spec_batch_queries(m.show, m.season)
    } else if m.episode is Some {
        spec_episode_queries(m.show, m.season, m.episode->0 as nat)
    } else {
        spec_show_queries(m.show)
    }
}

/// The search query built from an input: the raw query alone when no
/// show name could be parsed, else the first generated string as the
/// primary and the rest as alternatives.
pub open spec fn spec_build_query(input: Seq<char>) -> SearchModel {
    let m = spec_parse_query(input);
    if m.show.len() == 0 {
        SearchModel { primary: m.raw, alternatives: Seq::empty(), parsed: m }
    } else {
        let qs = spec_queries(m);
        SearchModel { primary: qs[0], alternatives: qs.drop_first(), parsed: m }
    }
}

/// Builds the search query for a free-text input. A query that names a
/// specific episode of an explicit season zero is left out: the
/// absolute-number estimate is undefined there.
pub fn build_search_query(input: &str) -> (r: SearchQuery)
    requires
        ({
            let m = spec_parse_query(input@);
            m.show.len() > 0 && !m.batch && m.episode is Some ==> m.season != Some(0u32)
        }),
    ensures
        r@ == spec_build_query(input@),
{
    let parsed = parse_query(input);
    if parsed.show_name.as_str().unicode_len() == 0 {
        let raw = parsed.raw_query.clone();
        let r = SearchQuery { primary: raw, alternatives: Vec::new(), parsed };
        proof {
            assert(str_views(Seq::<String>::empty()) =~= Seq::<Seq<char>>::empty());
        }
        return r;
    }
    let mut queries: Vec<String> = if parsed.is_batch_request {
        generate_batch_queries(&parsed)
    } else if let Some(ep) = parsed.episode {
        generate_episode_queries(&parsed, ep)
    } else {
        generate_show_queries(&parsed)
    };
    let primary = queries.remove(0);
    proof {
        assert(str_views(queries@) =~~= spec_queries(parsed@).drop_first());
    }
    SearchQuery { primary, alternatives: queries, parsed }
}

/// The main entry point: turns user input into ordered search strings.
pub fn smart_search(input: &str) -> (r: SearchQuery)
    requires
        ({
            let m = spec_parse_query(input@);
            m.show.len() > 0 && !m.batch && m.episode is Some ==> m.season != Some(0u32)
        }),
    ensures
        r@ == spec_build_query(input@),
{
    build_search_query(input)
}

// ---------------------------------------------------------------------------
// Result scoring
// ---------------------------------------------------------------------------

/// How many of the given words occur in the folded title, counted from
/// index `i` on.
pub open spec fn word_hits(l: Seq<char>, ws: Seq<Seq<char>>, i: int) -> nat
    decreases ws.len() - i,
    when 0 <= i <= ws.len()
{
    if i >= ws.len() {
        0
    } else {
        (if contains_seq(l, ws[i]) {
            1nat
        } else {
            0nat
        }) + word_hits(l, ws, i + 1)
    }
}

/// The episode-number token forms looked for in a folded title.
pub open spec fn ep_hit(l: Seq<char>, ep: nat) -> bool {
    ||| contains_seq(l, " "@ + pad2_digits(ep) + " "@)
    ||| contains_seq(l, " "@ + pad2_digits(ep))
    ||| contains_seq(l, "- "@ + pad2_digits(ep))
    ||| contains_seq(l, "-"@ + pad2_digits(ep))
    ||| contains_seq(l, "E"@ + pad2_digits(ep))
    ||| contains_seq(l, "e"@ + pad2_digits(ep))
    ||| contains_seq(l, " "@ + dec_digits(ep) + " "@)
    ||| contains_seq(l, "E"@ + dec_digits(ep) + " "@)
}

/// The season token forms looked for in a folded title.
pub open spec fn season_hit(l: Seq<char>, n: nat) -> bool {
    ||| contains_seq(l, "s"@ + pad2_digits(n))
    ||| contains_seq(l, "s"@ + dec_digits(n))
    ||| contains_seq(l, "season "@ + dec_digits(n))
    ||| contains_seq(l, dec_digits(n) + "nd season"@)
    ||| contains_seq(l, dec_digits(n) + "rd season"@)
    ||| contains_seq(l, dec_digits(n) + "th season"@)
    ||| contains_seq(l, "part "@ + dec_digits(n))
}

/// A well-known reliable release group occurs in the folded title.
pub open spec fn group_hit(l: Seq<char>) -> bool {
    ||| contains_seq(l, "subsplease"@)
    ||| contains_seq(l, "erai-raws"@)
    ||| contains_seq(l, "judas"@)
    ||| contains_seq(l, "horriblesubs"@)
}

/// A batch marker occurs in the folded title.
pub open spec fn batch_token_hit(l: Seq<char>) -> bool {
    ||| contains_seq(l, "batch"@)
    ||| contains_seq(l, "complete"@)
    ||| contains_seq(l, "1-"@)
    ||| contains_seq(l, "01-"@)
}

/// The relevance score of a result title against a parsed query: the
/// weighted sum of a full show-name match (else per-word overlap), an
/// episode token match, a season token match for later seasons, the
/// resolution preference, known release groups, the batch penalty for
/// specific-episode searches, and the low-resolution penalty.
pub open spec fn spec_score(title: Seq<char>, q: QueryModel) -> int {
    let l = lower_seq(title);
    let sl = lower_seq(q.show);
    let name_pts: int = if contains_seq(l, sl) {
        100
    } else {
        20 * (word_hits(l, runs_from(sl, 0, CharClass::NonSpace), 0) as int)
    };
    let ep_pts: int = match q.episode {
        Some(e) => if ep_hit(l, e as nat) {
            50
        } else {
            0
        },
        None => 0,
    };
    let sn_pts: int = match q.season {
        Some(n) => if n > 1 && season_hit(l, n as nat) {
            30
        } else {
            0
        },
        None => 0,
    };
    let res_pts: int = if contains_seq(l, "1080p"@) {
        10
    } else {
        0
    };
    let grp_pts: int = if group_hit(l) {
        15
    } else {
        0
    };
    let batch_pen: int = if q.episode is Some && !q.batch && batch_token_hit(l) {
        -50
    } else {
        0
    };
    let low_pen: int = if contains_seq(l, "480p"@) || contains_seq(l, "360p"@) {
        -20
    } else {
        0
    };
    name_pts + ep_pts + sn_pts + res_pts + grp_pts + batch_pen + low_pen
}

proof fn lemma_runs_count(s: Seq<char>, i: int, cls: CharClass)
    requires
        0 <= i <= s.len(),
    ensures
        runs_from(s, i, cls).len() <= s.len() - i,
    decreases s.len() - i,
{
    if i < s.len() {
        if crate::text::class_spec(cls, s[i]) {
            let e = i + run_len(s, i, cls);
            crate::text::lemma_run_len_in_bounds(s, i, cls);
            assert(run_len(s, i, cls) >= 1);
            lemma_runs_count(s, e, cls);
        } else {
            lemma_runs_count(s, i + 1, cls);
        }
    }
}

proof fn lemma_word_hits_bound(l: Seq<char>, ws: Seq<Seq<char>>, i: int)
    requires
        0 <= i <= ws.len(),
    ensures
        word_hits(l, ws, i) <= ws.len() - i,
    decreases ws.len() - i,
{
    if i < ws.len() {
        lemma_word_hits_bound(l, ws, i + 1);
    }
}

/// A lowered needle built from a run of the folded show name.
fn run_needle(w: &Vec<char>, st: usize, en: usize) -> (r: Vec<char>)
    requires
        st <= en <= w@.len(),
    ensures
        r@ == w@.subrange(st as int, en as int),
{
    let mut r: Vec<char> = Vec::new();
    let mut t = st;
    while t < en
        invariant
            st <= t <= en,
            en <= w@.len(),
            r@ == w@.subrange(st as int, t as int),
        decreases en - t,
    {
        r.push(w[t]);
        t += 1;
        proof {
            assert(r@ =~= w@.subrange(st as int, t as int));
        }
    }
    r
}

/// A needle of literal text followed by a formatted number, with an
/// optional trailing space.
fn make_needle(prefix: &str, n: u32, padded: bool, trailing_space: bool) -> (r: Vec<char>)
    ensures
        r@ == prefix@ + (if padded {
            pad2_digits(n as nat)
        } else {
            dec_digits(n as nat)
        }) + (if trailing_space {
            " "@
        } else {
            Seq::<char>::empty()
        }),
{
    let mut c: Vec<char> = Vec::new();
    push_str_chars(&mut c, prefix);
    if padded {
        push_pad2(&mut c, n);
    } else {
        push_dec(&mut c, n);
    }
    if trailing_space {
        push_str_chars(&mut c, " ");
    }
    proof {
        assert(c@ =~= prefix@ + (if padded {
            pad2_digits(n as nat)
        } else {
            dec_digits(n as nat)
        }) + (if trailing_space {
            " "@
        } else {
            Seq::<char>::empty()
        }));
    }
    c
}

/// A needle of a formatted number followed by literal text.
fn make_needle_suffix(n: u32, suffix: &str) -> (r: Vec<char>)
    ensures
        r@ == dec_digits(n as nat) + suffix@,
{
    let mut c: Vec<char> = Vec::new();
    push_dec(&mut c, n);
    push_str_chars(&mut c, suffix);
    c
}

/// A needle of plain literal text.
fn make_lit_needle(lit: &str) -> (r: Vec<char>)
    ensures
        r@ == lit@,
{
    let mut c: Vec<char> = Vec::new();
    push_str_chars(&mut c, lit);
    c
}

/// Scores a search-result title against the parsed query; higher is
/// better. The show name is bounded so that the per-word bonus cannot
/// overflow the score.
#[verifier::rlimit(100)]
pub fn score_result(result_title: &str, parsed: &ParsedQuery) -> (r: i32)
    requires
        parsed.show_name@.len() <= 100000000,
    ensures
        r as int == spec_score(result_title@, parsed@),
{
    let tv = to_chars(result_title);
    let l = lower_vec(&tv);
    let sv = to_chars(parsed.show_name.as_str());
    let sl = lower_vec(&sv);
    let mut score: i32 = 0;
    if seq_contains(&l, &sl) {
        score = 100;
    } else {
        let runs = split_runs(&sl, CharClass::NonSpace);
        let ghost ws = runs_from(sl@, 0, CharClass::NonSpace);
        proof {
            lemma_runs_count(sl@, 0, CharClass::NonSpace);
            lemma_word_hits_bound(l@, ws, 0);
        }
        let m = runs.len();
        let mut matched: usize = 0;
        let mut k: usize = 0;
        while k < m
            invariant
                k <= m,
                m == runs@.len(),
                ws == runs_from(sl@, 0, CharClass::NonSpace),
                crate::text::runs_to_parts(sl@, runs@, false) == ws,
                forall|t: int|
                    0 <= t < runs@.len() ==> (#[trigger] runs@[t]).0 < runs@[t].1 && runs@[t].1
                        <= sl@.len(),
                matched + word_hits(l@, ws, k as int) == word_hits(l@, ws, 0),
                matched <= k,
            decreases m - k,
        {
            let (st, en) = runs[k];
            let needle = run_needle(&sl, st, en);
            proof {
                assert(ws[k as int] == sl@.subrange(st as int, en as int));
            }
            if seq_contains(&l, &needle) {
                matched += 1;
            }
            k += 1;
        }
        proof {
            assert(word_hits(l@, ws, m as int) == 0);
            assert(matched <= ws.len() <= sl@.len() <= 100000000);
        }
        score = ((matched * 20) as i32);
    }
    match parsed.episode {
        Some(e) => {
            let p1 = make_needle(" ", e, true, true);
            let p2 = make_needle(" ", e, true, false);
            let p3 = make_needle("- ", e, true, false);
            let p4 = make_needle("-", e, true, false);
            let p5 = make_needle("E", e, true, false);
            let p6 = make_needle("e", e, true, false);
            let p7 = make_needle(" ", e, false, true);
            let p8 = make_needle("E", e, false, true);
            if seq_contains(&l, &p1) || seq_contains(&l, &p2) || seq_contains(&l, &p3)
                || seq_contains(&l, &p4) || seq_contains(&l, &p5) || seq_contains(&l, &p6)
                || seq_contains(&l, &p7) || seq_contains(&l, &p8) {
                score = score + 50;
            }
        },
        None => {},
    }
    match parsed.season {
        Some(n) => {
            if n > 1 {
                let s1 = make_needle("s", n, true, false);
                let s2 = make_needle("s", n, false, false);
                let s3 = make_needle("season ", n, false, false);
                let s4 = make_needle_suffix(n, "nd season");
                let s5 = make_needle_suffix(n, "rd season");
                let s6 = make_needle_suffix(n, "th season");
                let s7 = make_needle("part ", n, false, false);
                if seq_contains(&l, &s1) || seq_contains(&l, &s2) || seq_contains(&l, &s3)
                    || seq_contains(&l, &s4) || seq_contains(&l, &s5) || seq_contains(&l, &s6)
                    || seq_contains(&l, &s7) {
                    score = score + 30;
                }
            }
        },
        None => {},
    }
    let n1080 = make_lit_needle("1080p");
    if seq_contains(&l, &n1080) {
        score = score + 10;
    }
    let g1 = make_lit_needle("subsplease");
    let g2 = make_lit_needle("erai-raws");
    let g3 = make_lit_needle("judas");
    let g4 = make_lit_needle("horriblesubs");
    if seq_contains(&l, &g1) || seq_contains(&l, &g2) || seq_contains(&l, &g3) || seq_contains(
        &l,
        &g4,
    ) {
        score = score + 15;
    }
    if parsed.episode.is_some() && !parsed.is_batch_request {
        let b1 = make_lit_needle("batch");
        let b2 = make_lit_needle("complete");
        let b3 = make_lit_needle("1-");
        let b4 = make_lit_needle("01-");
        if seq_contains(&l, &b1) || seq_contains(&l, &b2) || seq_contains(&l, &b3)
            || seq_contains(&l, &b4) {
            score = score - 50;
        }
    }
    let lo1 = make_lit_needle("480p");
    let lo2 = make_lit_needle("360p");
    if seq_contains(&l, &lo1) || seq_contains(&l, &lo2) {
        score = score - 20;
    }
    score
}

// ---------------------------------------------------------------------------
// Ranking
// ---------------------------------------------------------------------------

/// Stable insertion of a result into a list sorted descending by score:
/// the result goes after every result scoring at least as much.
pub open spec fn insert_ranked(sorted: Seq<NyaaResult>, x: NyaaResult, q: QueryModel) -> Seq<
    NyaaResult,
>
    decreases sorted.len(),
{
    if sorted.len() == 0 {
        seq![x]
    } else if spec_score(sorted.last().title@, q) >= spec_score(x.title@, q) {
        sorted.push(x)
    } else {
        insert_ranked(sorted.drop_last(), x, q).push(sorted.last())
    }
}

/// The stable sort of results descending by score: ties keep their
/// prior order, so upstream relevance acts as the tie-break.
pub open spec fn spec_rank(s: Seq<NyaaResult>, q: QueryModel) -> Seq<NyaaResult>
    decreases s.len(),
{
    if s.len() == 0 {
        Seq::empty()
    } else {
        insert_ranked(spec_rank(s.drop_last(), q), s.last(), q)
    }
}

proof fn lemma_insert_ranked_decomp(s: Seq<NyaaResult>, x: NyaaResult, q: QueryModel, p: int)
    requires
        0 <= p <= s.len(),
        forall|t: int|
            p <= t < s.len() ==> spec_score((#[trigger] s[t]).title@, q) < spec_score(x.title@, q),
        p > 0 ==> spec_score(s[p - 1].title@, q) >= spec_score(x.title@, q),
    ensures
        insert_ranked(s, x, q) == s.subrange(0, p) + seq![x] + s.subrange(p, s.len() as int),
    decreases s.len(),
{
    if s.len() == 0 {
        assert(insert_ranked(s, x, q) =~= s.subrange(0, p) + seq![x] + s.subrange(
            p,
            s.len() as int,
        ));
    } else if spec_score(s.last().title@, q) >= spec_score(x.title@, q) {
        assert(p == s.len());
        assert(insert_ranked(s, x, q) =~= s.subrange(0, p) + seq![x] + s.subrange(
            p,
            s.len() as int,
        ));
    } else {
        lemma_insert_ranked_decomp(s.drop_last(), x, q, p);
        assert(s.drop_last().subrange(0, p) =~= s.subrange(0, p));
        assert(s.drop_last().subrange(p, s.len() - 1) =~= s.subrange(p, s.len() - 1));
        assert(insert_ranked(s, x, q) =~= s.subrange(0, p) + seq![x] + s.subrange(
            p,
            s.len() as int,
        ));
    }
}

/// Sorts search results in place, descending by relevance score; the
/// sort is stable, so equally scored results keep their incoming order.
pub fn rank_results(results: &mut Vec<NyaaResult>, parsed: &ParsedQuery)
    requires
        parsed.show_name@.len() <= 100000000,
    ensures
        final(results)@ == spec_rank(old(results)@, parsed@),
{
    let ghost orig = old(results)@;
    let mut out: Vec<NyaaResult> = Vec::new();
    let n = results.len();
    let mut i: usize = 0;
    while i < n
        invariant
            i <= n,
            n == orig.len(),
            parsed.show_name@.len() <= 100000000,
            results@ == orig.subrange(i as int, n as int),
            out@ == spec_rank(orig.subrange(0, i as int), parsed@),
        decreases n - i,
    {
        let x = results.remove(0);
        proof {
            assert(x == orig[i as int]);
            assert(results@ =~= orig.subrange(i + 1, n as int));
        }
        let xscore = score_result(x.title.as_str(), parsed);
        let mut p = out.len();
        while p > 0 && score_result(out[p - 1].title.as_str(), parsed) < xscore
            invariant
                p <= out@.len(),
                parsed.show_name@.len() <= 100000000,
                xscore as int == spec_score(x.title@, parsed@),
                forall|t: int|
                    p <= t < out@.len() ==> spec_score((#[trigger] out@[t]).title@, parsed@)
                        < spec_score(x.title@, parsed@),
            decreases p,
        {
            p -= 1;
        }
        let ghost sorted_prefix = out@;
        proof {
            lemma_insert_ranked_decomp(sorted_prefix, x, parsed@, p as int);
        }
        out.insert(p, x);
        proof {
            assert(out@ =~= sorted_prefix.subrange(0, p as int) + seq![x]
                + sorted_prefix.subrange(p as int, sorted_prefix.len() as int));
            assert(orig.subrange(0, i + 1).drop_last() =~= orig.subrange(0, i as int));
            assert(orig.subrange(0, i + 1).last() == orig[i as int]);
        }
        i += 1;
    }
    proof {
        assert(orig.subrange(0, n as int) =~= orig);
    }
    *results = out;
}

} // verus!
