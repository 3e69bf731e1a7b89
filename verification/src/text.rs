//! Character classes, digit runs, case folding, substring search and
//! decimal formatting over sequences of characters. Every parser and
//! scorer in the crate is specified in terms of these definitions.

use vstd::prelude::*;

verus! {

// ---------------------------------------------------------------------------
// Character classes
// ---------------------------------------------------------------------------

/// An ASCII decimal digit.
pub open spec fn is_digit(c: char) -> bool {
    '0' <= c && c <= '9'
}

/// Numeric value of a digit character.
pub open spec fn digit_val(c: char) -> nat {
    if is_digit(c) {
        (c as int - '0' as int) as nat
    } else {
        0
    }
}

/// ASCII whitespace, the set accepted by the separators in the parsing
/// patterns of this crate.
pub open spec fn is_wspace(c: char) -> bool {
    c == ' ' || c == '\t' || c == '\n' || c == '\r' || c == '\u{b}' || c == '\u{c}'
}

pub open spec fn is_upper(c: char) -> bool {
    'A' <= c && c <= 'Z'
}

pub open spec fn is_lower(c: char) -> bool {
    'a' <= c && c <= 'z'
}

pub open spec fn is_alpha(c: char) -> bool {
    is_upper(c) || is_lower(c)
}

pub open spec fn is_ascii_alnum(c: char) -> bool {
    is_alpha(c) || is_digit(c)
}

/// A word character as the parsing patterns understand it: ASCII letters,
/// digits, the underscore, and every character outside the ASCII range
/// (titles routinely carry non-Latin letters, which must not break a word).
pub open spec fn is_word(c: char) -> bool {
    is_ascii_alnum(c) || c == '_' || (c as int) > 127
}

/// A letter-or-digit as the show-identifier builder understands it:
/// ASCII alphanumeric, or any character outside the ASCII range.
pub open spec fn is_alnum_ext(c: char) -> bool {
    is_ascii_alnum(c) || (c as int) > 127
}

/// ASCII case folding; characters outside A-Z are unchanged.
pub open spec fn lower_char(c: char) -> char {
    if is_upper(c) {
        (((c as u8) + 32) as char)
    } else {
        c
    }
}

pub open spec fn lower_seq(s: Seq<char>) -> Seq<char> {
    s.map_values(|c: char| lower_char(c))
}

/// Executable ASCII case folding.
pub fn to_lower_char(c: char) -> (r: char)
    ensures
        r == lower_char(c),
{
    if 'A' <= c && c <= 'Z' {
        ((c as u8) + 32) as char
    } else {
        c
    }
}

pub fn char_is_digit(c: char) -> (r: bool)
    ensures
        r == is_digit(c),
{
    '0' <= c && c <= '9'
}

pub fn char_is_wspace(c: char) -> (r: bool)
    ensures
        r == is_wspace(c),
{
    c == ' ' || c == '\t' || c == '\n' || c == '\r' || c == '\u{b}' || c == '\u{c}'
}

pub fn char_is_word(c: char) -> (r: bool)
    ensures
        r == is_word(c),
{
    ('A' <= c && c <= 'Z') || ('a' <= c && c <= 'z') || ('0' <= c && c <= '9') || c == '_' || (c
        as u32) > 127
}

pub fn char_is_alnum_ext(c: char) -> (r: bool)
    ensures
        r == is_alnum_ext(c),
{
    ('A' <= c && c <= 'Z') || ('a' <= c && c <= 'z') || ('0' <= c && c <= '9') || (c as u32) > 127
}

// ---------------------------------------------------------------------------
// Conversions between strings and character vectors
// ---------------------------------------------------------------------------

/// Collects the characters of a string slice into a vector; the parsers
/// index characters freely through it.
pub fn to_chars(s: &str) -> (r: Vec<char>)
    ensures
        r@ == s@,
{
    let n = s.unicode_len();
    let mut r: Vec<char> = Vec::new();
    let mut i: usize = 0;
    while i < n
        invariant
            n == s@.len(),
            i <= n,
            r@ == s@.subrange(0, i as int),
        decreases n - i,
    {
        r.push(s.get_char(i));
        i += 1;
        proof {
            assert(r@ =~= s@.subrange(0, i as int));
        }
    }
    proof {
        assert(r@ =~= s@);
    }
    r
}

/// Relies on `String`'s `FromIterator` implementation: collecting a
/// sequence of characters yields the string of exactly those characters.
#[verifier::external_body]
pub fn chars_to_string(v: &Vec<char>) -> (r: String)
    ensures
        r@ == v@,
{
    v.iter().collect()
}

// ---------------------------------------------------------------------------
// Runs of characters
// ---------------------------------------------------------------------------

/// Length of the maximal run of decimal digits starting at `i`.
pub open spec fn digit_run(s: Seq<char>, i: int) -> nat
    decreases s.len() - i,
    when 0 <= i <= s.len()
{
    if i >= s.len() || !is_digit(s[i]) {
        0
    } else {
        1 + digit_run(s, i + 1)
    }
}

pub proof fn lemma_digit_run_in_bounds(s: Seq<char>, i: int)
    requires
        0 <= i <= s.len(),
    ensures
        i + digit_run(s, i) <= s.len(),
        forall|j: int| i <= j < i + digit_run(s, i) ==> is_digit(s[j]),
        i + digit_run(s, i) < s.len() ==> !is_digit(s[i + digit_run(s, i)]),
    decreases s.len() - i,
{
    if i < s.len() && is_digit(s[i]) {
        lemma_digit_run_in_bounds(s, i + 1);
    }
}

/// Executable scan for the digit run starting at `i`.
pub fn digit_run_at(v: &Vec<char>, i: usize) -> (r: usize)
    requires
        i <= v@.len(),
    ensures
        r == digit_run(v@, i as int),
        i + r <= v@.len(),
{
    let n = v.len();
    let mut j = i;
    while j < n && char_is_digit(v[j])
        invariant
            i <= j <= n,
            n == v@.len(),
            digit_run(v@, i as int) == (j - i) + digit_run(v@, j as int),
        decreases n - j,
    {
        j += 1;
    }
    proof {
        lemma_digit_run_in_bounds(v@, i as int);
    }
    j - i
}

// ---------------------------------------------------------------------------
// Numeric value of digit sequences
// ---------------------------------------------------------------------------

pub open spec fn pow10(n: nat) -> nat
    decreases n,
{
    if n == 0 {
        1
    } else {
        10 * pow10((n - 1) as nat)
    }
}

/// Value of a sequence of digit characters read as a decimal number.
pub open spec fn digits_val(s: Seq<char>) -> nat
    decreases s.len(),
{
    if s.len() == 0 {
        0
    } else {
        digits_val(s.drop_last()) * 10 + digit_val(s.last())
    }
}

pub proof fn lemma_digits_val_bound(s: Seq<char>)
    ensures
        digits_val(s) < pow10(s.len()),
    decreases s.len(),
{
    if s.len() > 0 {
        lemma_digits_val_bound(s.drop_last());
        assert(digit_val(s.last()) <= 9);
    }
}

/// Reads the value of the `k` digits of `v` starting at `i`.
/// Callers bound `k` so that the value fits comfortably in a `u32`.
pub fn digits_value_at(v: &Vec<char>, i: usize, k: usize) -> (r: u32)
    requires
        i + k <= v@.len(),
        k <= 8,
        forall|j: int| i <= j < i + k ==> is_digit(v@[j]),
    ensures
        r == digits_val(v@.subrange(i as int, i + k)),
        r < 100000000,
{
    let n = v.len();
    let end = i + k;
    let mut acc: u32 = 0;
    let mut j = i;
    proof {
        assert(v@.subrange(i as int, i as int) =~= Seq::<char>::empty());
    }
    while j < end
        invariant
            i <= j <= end,
            end == i + k,
            i + k <= v@.len(),
            k <= 8,
            forall|t: int| i <= t < i + k ==> is_digit(v@[t]),
            acc == digits_val(v@.subrange(i as int, j as int)),
            acc < pow10((j - i) as nat),
        decreases i + k - j,
    {
        proof {
            lemma_digits_val_bound(v@.subrange(i as int, j as int));
            lemma_pow10_mono((j - i) as nat, 7);
            assert(pow10(7) == 10000000) by {
                reveal_with_fuel(pow10, 9);
            }
        }
        let c = v[j];
        let d: u32 = (c as u32) - ('0' as u32);
        proof {
            assert(is_digit(v@[j as int]));
            assert(d == digit_val(v@[j as int]));
            assert(v@.subrange(i as int, j + 1).drop_last() =~= v@.subrange(i as int, j as int));
            assert(v@.subrange(i as int, j + 1).last() == v@[j as int]);
        }
        acc = acc * 10 + d;
        j += 1;
        proof {
            lemma_digits_val_bound(v@.subrange(i as int, j as int));
        }
    }
    proof {
        lemma_digits_val_bound(v@.subrange(i as int, i + k as int));
        lemma_pow10_mono(k as nat, 8);
        assert(pow10(8) == 100000000) by {
            reveal_with_fuel(pow10, 10);
        }
    }
    acc
}

pub proof fn lemma_pow10_mono(a: nat, b: nat)
    requires
        a <= b,
    ensures
        pow10(a) <= pow10(b),
    decreases b,
{
    if a < b {
        lemma_pow10_mono(a, (b - 1) as nat);
        assert(pow10(b) == 10 * pow10((b - 1) as nat));
    }
}

// ---------------------------------------------------------------------------
// Substring search
// ---------------------------------------------------------------------------

/// `needle` occurs in `hay` at position `i`.
pub open spec fn contains_at(hay: Seq<char>, needle: Seq<char>, i: int) -> bool {
    0 <= i && i + needle.len() <= hay.len() && hay.subrange(i, i + needle.len()) == needle
}

/// `needle` occurs somewhere in `hay`.
pub open spec fn contains_seq(hay: Seq<char>, needle: Seq<char>) -> bool {
    exists|i: int| contains_at(hay, needle, i)
}

/// Executable substring search.
pub fn seq_contains(hay: &Vec<char>, needle: &Vec<char>) -> (r: bool)
    ensures
        r == contains_seq(hay@, needle@),
{
    let n = hay.len();
    let m = needle.len();
    if m > n {
        proof {
            assert(forall|i: int| !contains_at(hay@, needle@, i));
        }
        return false;
    }
    let limit = n - m;
    let mut i: usize = 0;
    while i <= limit
        invariant
            m <= n,
            limit == n - m,
            n == hay@.len(),
            m == needle@.len(),
            i <= limit + 1,
            forall|t: int| 0 <= t < i ==> !contains_at(hay@, needle@, t),
        decreases limit + 1 - i,
    {
        let mut j: usize = 0;
        while j < m && hay[i + j] == needle[j]
            invariant
                i + m <= n,
                n == hay@.len(),
                m == needle@.len(),
                j <= m,
                forall|t: int| 0 <= t < j ==> hay@[i + t] == needle@[t],
            decreases m - j,
        {
            j += 1;
        }
        if j == m {
            proof {
                assert(hay@.subrange(i as int, i + m as int) =~= needle@);
                assert(contains_at(hay@, needle@, i as int));
            }
            return true;
        }
        proof {
            assert(hay@[i + j as int] != needle@[j as int]);
            assert(!contains_at(hay@, needle@, i as int)) by {
                if contains_at(hay@, needle@, i as int) {
                    assert(hay@.subrange(i as int, i + m as int)[j as int] == needle@[j as int]);
                }
            }
        }
        i += 1;
    }
    proof {
        assert forall|t: int| !contains_at(hay@, needle@, t) by {
            if 0 <= t && t + needle@.len() <= hay@.len() {
                assert(t < i);
            }
        }
    }
    false
}

/// Executable case folding of a whole vector.
pub fn lower_vec(v: &Vec<char>) -> (r: Vec<char>)
    ensures
        r@ == lower_seq(v@),
{
    let n = v.len();
    let mut r: Vec<char> = Vec::new();
    let mut i: usize = 0;
    while i < n
        invariant
            i <= n,
            n == v@.len(),
            r@ == lower_seq(v@).subrange(0, i as int),
        decreases n - i,
    {
        r.push(to_lower_char(v[i]));
        i += 1;
        proof {
            assert(r@ =~= lower_seq(v@).subrange(0, i as int));
        }
    }
    proof {
        assert(r@ =~= lower_seq(v@));
    }
    r
}

// ---------------------------------------------------------------------------
// Decimal formatting
// ---------------------------------------------------------------------------

/// The digit character for a value below ten.
pub open spec fn digit_char(d: nat) -> char {
    if d == 0 {
        '0'
    } else if d == 1 {
        '1'
    } else if d == 2 {
        '2'
    } else if d == 3 {
        '3'
    } else if d == 4 {
        '4'
    } else if d == 5 {
        '5'
    } else if d == 6 {
        '6'
    } else if d == 7 {
        '7'
    } else if d == 8 {
        '8'
    } else {
        '9'
    }
}

/// Decimal representation of a number, most significant digit first.
pub open spec fn dec_digits(n: nat) -> Seq<char>
    decreases n,
{
    if n < 10 {
        seq![digit_char(n)]
    } else {
        dec_digits(n / 10).push(digit_char(n % 10))
    }
}

/// Two-digit zero padding: numbers below ten gain a leading zero.
pub open spec fn pad2_digits(n: nat) -> Seq<char> {
    if n < 10 {
        seq!['0'].push(digit_char(n))
    } else {
        dec_digits(n)
    }
}

pub fn digit_char_ex(d: u32) -> (r: char)
    requires
        d < 10,
    ensures
        r == digit_char(d as nat),
{
    (('0' as u8) + (d as u8)) as char
}

/// Appends the decimal representation of `n` to a character vector.
pub fn push_dec(v: &mut Vec<char>, n: u32)
    ensures
        final(v)@ == old(v)@ + dec_digits(n as nat),
    decreases n,
{
    if n < 10 {
        v.push(digit_char_ex(n));
        proof {
            assert(final(v)@ =~= old(v)@ + dec_digits(n as nat));
        }
    } else {
        push_dec(v, n / 10);
        v.push(digit_char_ex(n % 10));
        proof {
            assert(final(v)@ =~= old(v)@ + dec_digits(n as nat));
        }
    }
}

/// Appends the two-digit padded representation of `n`.
pub fn push_pad2(v: &mut Vec<char>, n: u32)
    ensures
        final(v)@ == old(v)@ + pad2_digits(n as nat),
{
    if n < 10 {
        v.push('0');
        v.push(digit_char_ex(n));
        proof {
            assert(final(v)@ =~= old(v)@ + pad2_digits(n as nat));
        }
    } else {
        push_dec(v, n);
    }
}

/// Appends the decimal representation of a 64-bit number.
pub fn push_dec64(v: &mut Vec<char>, n: u64)
    ensures
        final(v)@ == old(v)@ + dec_digits(n as nat),
    decreases n,
{
    if n < 10 {
        v.push(digit_char_ex(n as u32));
        proof {
            assert(final(v)@ =~= old(v)@ + dec_digits(n as nat));
        }
    } else {
        push_dec64(v, n / 10);
        v.push(digit_char_ex((n % 10) as u32));
        proof {
            assert(final(v)@ =~= old(v)@ + dec_digits(n as nat));
        }
    }
}

/// Decimal representation of a number as a fresh string.
pub fn u32_to_string(n: u32) -> (r: String)
    ensures
        r@ == dec_digits(n as nat),
{
    let mut v: Vec<char> = Vec::new();
    push_dec(&mut v, n);
    proof {
        assert(v@ =~= dec_digits(n as nat));
    }
    chars_to_string(&v)
}

/// Appends every character of `s` to `v`.
pub fn push_seq(v: &mut Vec<char>, s: &Vec<char>)
    ensures
        final(v)@ == old(v)@ + s@,
{
    let n = s.len();
    let mut i: usize = 0;
    while i < n
        invariant
            i <= n,
            n == s@.len(),
            v@ == old(v)@ + s@.subrange(0, i as int),
        decreases n - i,
    {
        v.push(s[i]);
        i += 1;
        proof {
            assert(v@ =~= old(v)@ + s@.subrange(0, i as int));
        }
    }
    proof {
        assert(final(v)@ =~= old(v)@ + s@);
    }
}

/// Appends every character of the string slice `s` to `v`.
pub fn push_str_chars(v: &mut Vec<char>, s: &str)
    ensures
        final(v)@ == old(v)@ + s@,
{
    let n = s.unicode_len();
    let mut i: usize = 0;
    while i < n
        invariant
            i <= n,
            n == s@.len(),
            v@ == old(v)@ + s@.subrange(0, i as int),
        decreases n - i,
    {
        v.push(s.get_char(i));
        i += 1;
        proof {
            assert(v@ =~= old(v)@ + s@.subrange(0, i as int));
        }
    }
    proof {
        assert(final(v)@ =~= old(v)@ + s@);
    }
}

// ---------------------------------------------------------------------------
// Generic character runs, splitting and joining
// ---------------------------------------------------------------------------

/// A selector of characters, used to split strings into runs.
#[derive(Clone, Copy, PartialEq, Eq, Structural)]
pub enum CharClass {
    /// Characters that are not ASCII whitespace.
    NonSpace,
    /// ASCII alphanumerics plus everything outside the ASCII range.
    AlnumExt,
    /// Characters that are neither whitespace nor `_` nor `.`.
    TitleSeg,
    /// ASCII whitespace.
    WSpace,
    /// The separator set of whitespace, `.` and `_`.
    SepDot,
}

pub open spec fn class_spec(cls: CharClass, c: char) -> bool {
    match cls {
        CharClass::NonSpace => !is_wspace(c),
        CharClass::AlnumExt => is_alnum_ext(c),
        CharClass::TitleSeg => !(is_wspace(c) || c == '_' || c == '.'),
        CharClass::WSpace => is_wspace(c),
        CharClass::SepDot => is_wspace(c) || c == '.' || c == '_',
    }
}

pub fn class_test(cls: CharClass, c: char) -> (r: bool)
    ensures
        r == class_spec(cls, c),
{
    match cls {
        CharClass::NonSpace => !char_is_wspace(c),
        CharClass::AlnumExt => char_is_alnum_ext(c),
        CharClass::TitleSeg => !(char_is_wspace(c) || c == '_' || c == '.'),
        CharClass::WSpace => char_is_wspace(c),
        CharClass::SepDot => char_is_wspace(c) || c == '.' || c == '_',
    }
}

/// Length of the maximal run of characters of class `cls` starting at `i`.
pub open spec fn run_len(s: Seq<char>, i: int, cls: CharClass) -> nat
    decreases s.len() - i,
    when 0 <= i <= s.len()
{
    if i >= s.len() || !class_spec(cls, s[i]) {
        0
    } else {
        1 + run_len(s, i + 1, cls)
    }
}

pub proof fn lemma_run_len_in_bounds(s: Seq<char>, i: int, cls: CharClass)
    requires
        0 <= i <= s.len(),
    ensures
        i + run_len(s, i, cls) <= s.len(),
        forall|j: int| i <= j < i + run_len(s, i, cls) ==> class_spec(cls, s[j]),
        i + run_len(s, i, cls) < s.len() ==> !class_spec(cls, s[i + run_len(s, i, cls)]),
    decreases s.len() - i,
{
    if i < s.len() && class_spec(cls, s[i]) {
        lemma_run_len_in_bounds(s, i + 1, cls);
    }
}

/// Executable scan for the run of class `cls` starting at `i`.
pub fn run_len_at(v: &Vec<char>, i: usize, cls: CharClass) -> (r: usize)
    requires
        i <= v@.len(),
    ensures
        r == run_len(v@, i as int, cls),
        i + r <= v@.len(),
{
    let n = v.len();
    let mut j = i;
    while j < n && class_test(cls, v[j])
        invariant
            i <= j <= n,
            n == v@.len(),
            run_len(v@, i as int, cls) == (j - i) + run_len(v@, j as int, cls),
        decreases n - j,
    {
        j += 1;
    }
    proof {
        lemma_run_len_in_bounds(v@, i as int, cls);
    }
    j - i
}

/// The runs of characters of class `cls` in `s` from position `i` on,
/// in order, as subsequences of `s`.
pub open spec fn runs_from(s: Seq<char>, i: int, cls: CharClass) -> Seq<Seq<char>>
    decreases s.len() - i,
    when 0 <= i <= s.len()
    via runs_from_dec
{
    if i >= s.len() {
        Seq::empty()
    } else if !class_spec(cls, s[i]) {
        runs_from(s, i + 1, cls)
    } else {
        let e = i + run_len(s, i, cls);
        seq![s.subrange(i, e)] + runs_from(s, e, cls)
    }
}

#[via_fn]
proof fn runs_from_dec(s: Seq<char>, i: int, cls: CharClass) {
    if i < s.len() && class_spec(cls, s[i]) {
        assert(run_len(s, i, cls) >= 1);
        lemma_run_len_in_bounds(s, i, cls);
    }
}

/// Joining a list of parts with a single separator character.
pub open spec fn join_char(sep: char, parts: Seq<Seq<char>>) -> Seq<char>
    decreases parts.len(),
{
    if parts.len() == 0 {
        Seq::empty()
    } else if parts.len() == 1 {
        parts[0]
    } else {
        join_char(sep, parts.drop_last()) + seq![sep] + parts.last()
    }
}

/// The character subsequences named by a list of index pairs, each
/// optionally case-folded.
pub open spec fn runs_to_parts(s: Seq<char>, runs: Seq<(usize, usize)>, fold: bool) -> Seq<
    Seq<char>,
> {
    Seq::new(
        runs.len(),
        |k: int|
            if fold {
                lower_seq(s.subrange(runs[k].0 as int, runs[k].1 as int))
            } else {
                s.subrange(runs[k].0 as int, runs[k].1 as int)
            },
    )
}

/// The runs of class `cls` in `v`, as index pairs (start, end).
pub fn split_runs(v: &Vec<char>, cls: CharClass) -> (r: Vec<(usize, usize)>)
    ensures
        runs_to_parts(v@, r@, false) == runs_from(v@, 0, cls),
        forall|k: int|
            0 <= k < r@.len() ==> (#[trigger] r@[k]).0 < r@[k].1 && r@[k].1 <= v@.len(),
{
    let n = v.len();
    let mut r: Vec<(usize, usize)> = Vec::new();
    let mut i: usize = 0;
    while i < n
        invariant
            i <= n,
            n == v@.len(),
            runs_from(v@, 0, cls) == runs_to_parts(v@, r@, false) + runs_from(v@, i as int, cls),
            forall|k: int|
                0 <= k < r@.len() ==> (#[trigger] r@[k]).0 < r@[k].1 && r@[k].1 <= v@.len(),
        decreases n - i,
    {
        if !class_test(cls, v[i]) {
            i += 1;
        } else {
            let e = run_len_at(v, i, cls);
            proof {
                lemma_run_len_in_bounds(v@, i as int, cls);
                assert(runs_from(v@, i as int, cls) == seq![
                    v@.subrange(i as int, i + e),
                ] + runs_from(v@, i + e, cls));
            }
            let ghost old_r = r@;
            r.push((i, i + e));
            proof {
                assert(runs_to_parts(v@, r@, false) =~~= runs_to_parts(v@, old_r, false) + seq![
                    v@.subrange(i as int, i + e),
                ]);
            }
            i += e;
        }
    }
    proof {
        assert(runs_to_parts(v@, r@, false) =~~= runs_from(v@, 0, cls));
    }
    r
}

/// Joins runs of `v`, given as index pairs, with a separator character,
/// mapping each character through `lower_char` when `fold` is set.
pub fn join_runs(v: &Vec<char>, runs: &Vec<(usize, usize)>, sep: char, fold: bool) -> (r: Vec<
    char,
>)
    requires
        forall|k: int|
            0 <= k < runs@.len() ==> (#[trigger] runs@[k]).0 <= runs@[k].1 && runs@[k].1
                <= v@.len(),
    ensures
        r@ == join_char(sep, runs_to_parts(v@, runs@, fold)),
{
    let ghost parts = runs_to_parts(v@, runs@, fold);
    let m = runs.len();
    let mut r: Vec<char> = Vec::new();
    let mut k: usize = 0;
    while k < m
        invariant
            k <= m,
            m == runs@.len(),
            parts == runs_to_parts(v@, runs@, fold),
            forall|t: int|
                0 <= t < runs@.len() ==> (#[trigger] runs@[t]).0 <= runs@[t].1 && runs@[t].1
                    <= v@.len(),
            r@ == join_char(sep, parts.subrange(0, k as int)),
        decreases m - k,
    {
        if k > 0 {
            r.push(sep);
        }
        let (st, en) = runs[k];
        let mut t = st;
        let ghost mid = r@;
        while t < en
            invariant
                st <= t <= en,
                en <= v@.len(),
                r@ == mid + (if fold {
                    lower_seq(v@.subrange(st as int, t as int))
                } else {
                    v@.subrange(st as int, t as int)
                }),
            decreases en - t,
        {
            if fold {
                r.push(to_lower_char(v[t]));
            } else {
                r.push(v[t]);
            }
            t += 1;
            proof {
                if fold {
                    assert(r@ =~= mid + lower_seq(v@.subrange(st as int, t as int)));
                } else {
                    assert(r@ =~= mid + v@.subrange(st as int, t as int));
                }
            }
        }
        k += 1;
        proof {
            assert(parts.subrange(0, k as int).drop_last() =~= parts.subrange(0, k - 1));
            assert(parts.subrange(0, k as int).last() == parts[k - 1]);
            if k == 1 {
                assert(r@ =~= join_char(sep, parts.subrange(0, 1)));
            } else {
                assert(r@ =~= join_char(sep, parts.subrange(0, k as int)));
            }
        }
    }
    proof {
        assert(parts.subrange(0, m as int) =~= parts);
    }
    r
}

// ---------------------------------------------------------------------------
// Literal and keyword matching, word boundaries
// ---------------------------------------------------------------------------

/// `kw` (given in lower case) occurs at position `i` of `s` under ASCII
/// case folding.
pub open spec fn kw_at(s: Seq<char>, i: int, kw: Seq<char>) -> bool {
    &&& 0 <= i
    &&& i + kw.len() <= s.len()
    &&& forall|t: int| 0 <= t < kw.len() ==> lower_char(s[i + t]) == kw[t]
}

/// `lit` occurs at position `i` of `s`, case sensitively.
pub open spec fn lit_at(s: Seq<char>, i: int, lit: Seq<char>) -> bool {
    &&& 0 <= i
    &&& i + lit.len() <= s.len()
    &&& forall|t: int| 0 <= t < lit.len() ==> s[i + t] == lit[t]
}

/// Executable case-folded keyword match.
pub fn ci_kw_at(v: &Vec<char>, i: usize, kw: &Vec<char>) -> (r: bool)
    ensures
        r == kw_at(v@, i as int, kw@),
{
    let n = v.len();
    let m = kw.len();
    if i > n || m > n - i {
        return false;
    }
    let mut t: usize = 0;
    while t < m && to_lower_char(v[i + t]) == kw[t]
        invariant
            t <= m,
            i + m <= n,
            n == v@.len(),
            m == kw@.len(),
            forall|u: int| 0 <= u < t ==> lower_char(v@[i + u]) == kw@[u],
        decreases m - t,
    {
        t += 1;
    }
    t == m
}

/// Executable case-sensitive literal match.
pub fn cs_lit_at(v: &Vec<char>, i: usize, lit: &Vec<char>) -> (r: bool)
    ensures
        r == lit_at(v@, i as int, lit@),
{
    let n = v.len();
    let m = lit.len();
    if i > n || m > n - i {
        return false;
    }
    let mut t: usize = 0;
    while t < m && v[i + t] == lit[t]
        invariant
            t <= m,
            i + m <= n,
            n == v@.len(),
            m == lit@.len(),
            forall|u: int| 0 <= u < t ==> v@[i + u] == lit@[u],
        decreases m - t,
    {
        t += 1;
    }
    t == m
}

/// A word boundary stands before position `i`.
pub open spec fn wb(s: Seq<char>, i: int) -> bool {
    i == 0 || !is_word(s[i - 1])
}

/// A word boundary stands after position `j` (exclusive end).
pub open spec fn wa(s: Seq<char>, j: int) -> bool {
    j == s.len() || !is_word(s[j])
}

pub fn wb_at(v: &Vec<char>, i: usize) -> (r: bool)
    requires
        i <= v@.len(),
    ensures
        r == wb(v@, i as int),
{
    i == 0 || !char_is_word(v[i - 1])
}

pub fn wa_at(v: &Vec<char>, j: usize) -> (r: bool)
    requires
        j <= v@.len(),
    ensures
        r == wa(v@, j as int),
{
    j == v.len() || !char_is_word(v[j])
}

/// Executable string equality over views.
pub fn str_eq(a: &str, b: &str) -> (r: bool)
    ensures
        r == (a@ == b@),
{
    let va = to_chars(a);
    let vb = to_chars(b);
    if va.len() != vb.len() {
        proof {
            if a@ == b@ {
                assert(a@.len() == b@.len());
            }
        }
        return false;
    }
    let r = cs_lit_at(&va, 0, &vb);
    proof {
        if r {
            assert(a@ =~= b@);
        } else {
            if a@ == b@ {
                assert(forall|t: int| 0 <= t < vb@.len() ==> va@[0 + t] == vb@[t]);
            }
        }
    }
    r
}

/// `s` ends with `suf`.
pub open spec fn ends_with(s: Seq<char>, suf: Seq<char>) -> bool {
    s.len() >= suf.len() && s.subrange(s.len() - suf.len(), s.len() as int) == suf
}

pub fn ends_with_ex(v: &Vec<char>, suf: &Vec<char>) -> (r: bool)
    ensures
        r == ends_with(v@, suf@),
{
    let n = v.len();
    let m = suf.len();
    if m > n {
        return false;
    }
    let mut t: usize = 0;
    while t < m && v[n - m + t] == suf[t]
        invariant
            t <= m,
            m <= n,
            n == v@.len(),
            m == suf@.len(),
            forall|u: int| 0 <= u < t ==> v@[n - m + u] == suf@[u],
        decreases m - t,
    {
        t += 1;
    }
    if t == m {
        proof {
            assert(v@.subrange(n - m, n as int) =~= suf@);
        }
        true
    } else {
        proof {
            assert(v@[n - m + t as int] != suf@[t as int]);
            if ends_with(v@, suf@) {
                assert(v@.subrange(n - m, n as int)[t as int] == suf@[t as int]);
            }
        }
        false
    }
}

// ---------------------------------------------------------------------------
// Lexicographic order on character sequences
// ---------------------------------------------------------------------------

/// Strict lexicographic order by code point; the order `String`
/// comparison gives, since the byte order of UTF-8 follows the code
/// points.
pub open spec fn lex_lt(a: Seq<char>, b: Seq<char>) -> bool
    decreases a.len(),
{
    if b.len() == 0 {
        false
    } else if a.len() == 0 {
        true
    } else if a[0] != b[0] {
        a[0] < b[0]
    } else {
        lex_lt(a.drop_first(), b.drop_first())
    }
}

/// Executable lexicographic comparison.
pub fn lex_lt_ex(a: &Vec<char>, b: &Vec<char>) -> (r: bool)
    ensures
        r == lex_lt(a@, b@),
{
    let na = a.len();
    let nb = b.len();
    proof {
        assert(a@.subrange(0, na as int) =~= a@);
        assert(b@.subrange(0, nb as int) =~= b@);
    }
    let mut i: usize = 0;
    while i < na && i < nb && a[i] == b[i]
        invariant
            i <= na,
            i <= nb,
            na == a@.len(),
            nb == b@.len(),
            lex_lt(a@, b@) == lex_lt(
                a@.subrange(i as int, na as int),
                b@.subrange(i as int, nb as int),
            ),
        decreases na - i,
    {
        i += 1;
        proof {
            assert(a@.subrange(i - 1, na as int).drop_first() =~= a@.subrange(i as int, na as int));
            assert(b@.subrange(i - 1, nb as int).drop_first() =~= b@.subrange(i as int, nb as int));
        }
    }
    proof {
        assert(a@.subrange(i as int, na as int).len() == na - i);
        assert(b@.subrange(i as int, nb as int).len() == nb - i);
    }
    if i == nb {
        false
    } else if i == na {
        true
    } else {
        proof {
            assert(a@.subrange(i as int, na as int)[0] == a@[i as int]);
            assert(b@.subrange(i as int, nb as int)[0] == b@[i as int]);
            assert(a@[i as int] != b@[i as int]);
        }
        a[i] < b[i]
    }
}

} // verus!
