//! Folder categorizer and batch analyzer: classifies a directory name
//! into seasons, specials, movies and extras, and turns a directory tree
//! into a structured inventory of seasons, special buckets and loose
//! episodes.

use vstd::prelude::*;

use crate::text::{
    char_is_wspace, chars_to_string, ci_kw_at, dec_digits, digit_run, digit_run_at, digits_val,
    digits_value_at, is_digit, is_wspace, kw_at, lemma_digit_run_in_bounds,
    lemma_digits_val_bound, lemma_pow10_mono, lower_char, lower_seq, lower_vec, pow10, push_dec64,
    push_str_chars, run_len, run_len_at, to_chars, to_lower_char, CharClass,
};

verus! {

/// Category of a folder within a batch.
#[derive(Debug, Clone, PartialEq, Eq, Structural)]
pub enum FolderCategory {
    /// A season folder such as `Season 1` or `S02`.
    Season(u32),
    /// OVA content.
    Ova,
    /// Specials.
    Special,
    /// Movies.
    Movie,
    /// Extra content such as openings, endings and bonus folders.
    Extra,
    /// An uncategorized folder.
    Unknown,
}

// ---------------------------------------------------------------------------
// Season folder patterns, anchored at the start of the name
// ---------------------------------------------------------------------------

/// A keyword at the very start, optional spaces, then a digit run of any
/// length; the value is the whole run read as a number.
pub open spec fn folder_kw_num(s: Seq<char>, kw: Seq<char>) -> Option<nat> {
    let j = kw.len() as int;
    let w = run_len(s, j, CharClass::WSpace);
    let d = digit_run(s, j + w);
    if kw_at(s, 0, kw) && d >= 1 {
        Some(digits_val(s.subrange(j + w, j + w + d)))
    } else {
        None
    }
}

/// `S` at the very start, one or two digits, then a space, a dash or the
/// end of the name.
pub open spec fn folder_s_num(s: Seq<char>) -> Option<nat> {
    let d = digit_run(s, 1) as int;
    if s.len() >= 2 && lower_char(s[0]) == 's' && 1 <= d <= 2 && (1 + d == s.len() || is_wspace(
        s[1 + d],
    ) || s[1 + d] == '-') {
        Some(digits_val(s.subrange(1, 1 + d)))
    } else {
        None
    }
}

/// The acceptance bound for season numbers of folders.
pub open spec fn folder_season_ok(o: Option<nat>) -> bool {
    o is Some && 0 < o->0 < 100
}

// ---------------------------------------------------------------------------
// Special folder names, matched as whole names under case folding
// ---------------------------------------------------------------------------

pub open spec fn is_ova_name(l: Seq<char>) -> bool {
    l == "ova"@ || l == "ovas"@ || l == "oav"@ || l == "oavs"@ || l == "oad"@ || l == "oads"@
}

pub open spec fn is_special_name(l: Seq<char>) -> bool {
    l == "special"@ || l == "specials"@
}

pub open spec fn is_movie_name(l: Seq<char>) -> bool {
    l == "movie"@ || l == "movies"@
}

/// Extras cover `Extras`, `Bonus` and the creditless opening/ending
/// folder names.
pub open spec fn is_extra_name(l: Seq<char>) -> bool {
    ||| l == "extra"@
    ||| l == "extras"@
    ||| l == "bonus"@
    ||| l == "ncop"@
    ||| l == "ncops"@
    ||| l == "nced"@
    ||| l == "nceds"@
    ||| l == "ncod"@
    ||| l == "ncods"@
    ||| l == "ncep"@
    ||| l == "nceps"@
}

/// The folder classification: season markers first, then the
/// special-content names matched as whole names, else `Unknown`.
pub open spec fn spec_categorize(s: Seq<char>) -> FolderCategory {
    let c1 = folder_kw_num(s, "season"@);
    let c2 = folder_s_num(s);
    let c3 = folder_kw_num(s, "part"@);
    let c4 = folder_kw_num(s, "cour"@);
    let l = lower_seq(s);
    if folder_season_ok(c1) {
        FolderCategory::Season(c1->0 as u32)
    } else if folder_season_ok(c2) {
        FolderCategory::Season(c2->0 as u32)
    } else if folder_season_ok(c3) {
        FolderCategory::Season(c3->0 as u32)
    } else if folder_season_ok(c4) {
        FolderCategory::Season(c4->0 as u32)
    } else if is_ova_name(l) {
        FolderCategory::Ova
    } else if is_special_name(l) {
        FolderCategory::Special
    } else if is_movie_name(l) {
        FolderCategory::Movie
    } else if is_extra_name(l) {
        FolderCategory::Extra
    } else {
        FolderCategory::Unknown
    }
}

// ---------------------------------------------------------------------------
// Executable categorization
// ---------------------------------------------------------------------------

/// Leading zeros leave the value of a digit sequence unchanged.
proof fn lemma_digits_val_zeros(s: Seq<char>, z: int)
    requires
        0 <= z <= s.len(),
        forall|t: int| 0 <= t < z ==> s[t] == '0',
    ensures
        digits_val(s) == digits_val(s.subrange(z, s.len() as int)),
    decreases s.len(),
{
    if s.len() == 0 {
    } else if z == s.len() {
        lemma_digits_val_zeros(s.drop_last(), z - 1);
        assert(s.drop_last().subrange(z - 1, s.len() - 1) =~= s.subrange(z, s.len() as int));
        assert(digit_val(s.last()) == 0) by {
            assert(s.last() == '0');
        }
    } else {
        lemma_digits_val_zeros(s.drop_last(), z);
        assert(s.drop_last().subrange(z, s.len() - 1) =~= s.subrange(z, s.len() as int).drop_last());
        assert(s.subrange(z, s.len() as int).last() == s.last());
    }
}

use crate::text::digit_val;

/// A digit sequence with a non-zero leading digit is at least the power
/// of ten of its remaining length.
proof fn lemma_digits_val_sig(s: Seq<char>)
    requires
        s.len() >= 1,
        is_digit(s[0]),
        s[0] != '0',
    ensures
        digits_val(s) >= pow10((s.len() - 1) as nat),
    decreases s.len(),
{
    if s.len() == 1 {
        assert(digit_val(s[0]) >= 1);
        assert(s.last() == s[0]);
        assert(s.drop_last().len() == 0);
    } else {
        lemma_digits_val_sig(s.drop_last());
        assert(s.drop_last()[0] == s[0]);
    }
}

/// Reads the digit run starting at `st` as a number, accepting it only
/// strictly between 0 and 100.
fn read_folder_num(v: &Vec<char>, st: usize, d: usize) -> (r: Option<u32>)
    requires
        st + d <= v@.len(),
        d == digit_run(v@, st as int),
        d >= 1,
    ensures
        r is Some <==> 0 < digits_val(v@.subrange(st as int, st + d)) < 100,
        r is Some ==> r->0 as nat == digits_val(v@.subrange(st as int, st + d)),
{
    let ghost full = v@.subrange(st as int, st + d);
    proof {
        lemma_digit_run_in_bounds(v@, st as int);
    }
    let n = v.len();
    let mut z: usize = 0;
    while z < d && v[st + z] == '0'
        invariant
            z <= d,
            st + d <= n,
            n == v@.len(),
            forall|t: int| st <= t < st + z ==> v@[t] == '0',
        decreases d - z,
    {
        z += 1;
    }
    proof {
        assert forall|t: int| 0 <= t < z implies full[t] == '0' by {
            assert(full[t] == v@[st + t]);
        }
        lemma_digits_val_zeros(full, z as int);
        assert(full.subrange(z as int, full.len() as int) =~= v@.subrange(st + z, st + d));
    }
    let sig = d - z;
    if sig == 0 {
        proof {
            assert(digits_val(v@.subrange(st + z, st + d)) == 0);
        }
        return None;
    }
    if sig > 2 {
        proof {
            assert(is_digit(v@[st + z]) && v@[st + z] != '0');
            let tailseq = v@.subrange(st + z, st + d);
            assert(tailseq[0] == v@[st + z]);
            lemma_digits_val_sig(tailseq);
            lemma_pow10_mono(2, (tailseq.len() - 1) as nat);
            assert(pow10(2) == 100) by {
                reveal_with_fuel(pow10, 4);
            }
        }
        return None;
    }
    proof {
        assert(forall|t: int| st + z <= t < st + d ==> is_digit(v@[t]));
    }
    let n = digits_value_at(v, st + z, sig);
    proof {
        lemma_digits_val_bound(v@.subrange(st + z, st + d));
        lemma_pow10_mono(sig as nat, 2);
        assert(pow10(2) == 100) by {
            reveal_with_fuel(pow10, 4);
        }
    }
    if n == 0 {
        None
    } else {
        Some(n)
    }
}

fn folder_kw_num_ex(v: &Vec<char>, kw: &Vec<char>) -> (r: Option<u32>)
    ensures
        r is Some <==> folder_season_ok(folder_kw_num(v@, kw@)),
        r is Some ==> r->0 as nat == folder_kw_num(v@, kw@)->0,
{
    let n = v.len();
    if !ci_kw_at(v, 0, kw) {
        return None;
    }
    let j = kw.len();
    let w = run_len_at(v, j, CharClass::WSpace);
    let d = digit_run_at(v, j + w);
    if d < 1 {
        return None;
    }
    read_folder_num(v, j + w, d)
}

fn folder_s_num_ex(v: &Vec<char>) -> (r: Option<u32>)
    ensures
        r is Some <==> folder_season_ok(folder_s_num(v@)),
        r is Some ==> r->0 as nat == folder_s_num(v@)->0,
{
    let n = v.len();
    if n < 2 || to_lower_char(v[0]) != 's' {
        return None;
    }
    let d = digit_run_at(v, 1);
    if d < 1 || d > 2 {
        return None;
    }
    if !(1 + d == n || char_is_wspace(v[1 + d]) || v[1 + d] == '-') {
        return None;
    }
    proof {
        lemma_digits_val_bound(v@.subrange(1, 1 + d));
        lemma_pow10_mono(d as nat, 2);
        assert(pow10(2) == 100) by {
            reveal_with_fuel(pow10, 4);
        }
    }
    read_folder_num(v, 1, d)
}

/// Matches a case-folded whole name against a fixed form.
fn whole_name_is(l: &Vec<char>, lit: &str) -> (r: bool)
    ensures
        r == (l@ == lit@),
{
    let lv = to_chars(lit);
    if l.len() != lv.len() {
        proof {
            assert(l@ != lit@) by {
                if l@ == lit@ {
                    assert(l@.len() == lit@.len());
                }
            }
        }
        return false;
    }
    let r = crate::text::cs_lit_at(l, 0, &lv);
    proof {
        if r {
            assert(l@ =~= lit@);
        } else {
            if l@ == lit@ {
                assert(forall|t: int| 0 <= t < lv@.len() ==> l@[0 + t] == lv@[t]);
            }
        }
    }
    r
}

/// Classifies a directory name: season markers first, with the numeric
/// acceptance bound, then whole-name special markers, else `Unknown`.
pub fn categorize_folder(name: &str) -> (r: FolderCategory)
    ensures
        r == spec_categorize(name@),
{
    let v = to_chars(name);
    let season = to_chars("season");
    let part = to_chars("part");
    let cour = to_chars("cour");
    if let Some(x) = folder_kw_num_ex(&v, &season) {
        return FolderCategory::Season(x);
    }
    if let Some(x) = folder_s_num_ex(&v) {
        return FolderCategory::Season(x);
    }
    if let Some(x) = folder_kw_num_ex(&v, &part) {
        return FolderCategory::Season(x);
    }
    if let Some(x) = folder_kw_num_ex(&v, &cour) {
        return FolderCategory::Season(x);
    }
    let l = lower_vec(&v);
    if whole_name_is(&l, "ova") || whole_name_is(&l, "ovas") || whole_name_is(&l, "oav")
        || whole_name_is(&l, "oavs") || whole_name_is(&l, "oad") || whole_name_is(&l, "oads") {
        return FolderCategory::Ova;
    }
    if whole_name_is(&l, "special") || whole_name_is(&l, "specials") {
        return FolderCategory::Special;
    }
    if whole_name_is(&l, "movie") || whole_name_is(&l, "movies") {
        return FolderCategory::Movie;
    }
    if whole_name_is(&l, "extra") || whole_name_is(&l, "extras") || whole_name_is(&l, "bonus")
        || whole_name_is(&l, "ncop") || whole_name_is(&l, "ncops") || whole_name_is(&l, "nced")
        || whole_name_is(&l, "nceds") || whole_name_is(&l, "ncod") || whole_name_is(&l, "ncods")
        || whole_name_is(&l, "ncep") || whole_name_is(&l, "nceps") {
        return FolderCategory::Extra;
    }
    FolderCategory::Unknown
}

// ---------------------------------------------------------------------------
// Directory trees and the batch model
// ---------------------------------------------------------------------------

/// A directory tree as handed in by the caller: the folder name, its
/// full path, the names of the files directly in it, and its immediate
/// subdirectories.
pub struct DirTree {
    pub name: String,
    pub path: String,
    pub files: Vec<String>,
    pub subdirs: Vec<DirTree>,
}

/// Information about a detected season.
#[derive(Clone)]
pub struct SeasonInfo {
    pub number: u32,
    pub folder_name: String,
    pub path: String,
    pub episodes: Vec<String>,
}

/// Special content: OVAs, movies, specials and extras.
#[derive(Clone)]
pub struct SpecialsInfo {
    pub ovas: Vec<String>,
    pub movies: Vec<String>,
    pub specials: Vec<String>,
    pub extras: Vec<String>,
}

/// Complete analysis of a batch download folder structure.
#[derive(Clone)]
pub struct BatchAnalysis {
    pub is_batch: bool,
    pub total_videos: usize,
    pub seasons: Vec<SeasonInfo>,
    pub specials: SpecialsInfo,
    pub loose_episodes: Vec<String>,
}

/// The views of a sequence of strings.
pub open spec fn str_views(v: Seq<String>) -> Seq<Seq<char>> {
    v.map_values(|s: String| s@)
}

pub ghost struct SeasonModel {
    pub number: u32,
    pub folder_name: Seq<char>,
    pub path: Seq<char>,
    pub episodes: Seq<Seq<char>>,
}

pub ghost struct BatchModel {
    pub is_batch: bool,
    pub total: nat,
    pub seasons: Seq<SeasonModel>,
    pub ovas: Seq<Seq<char>>,
    pub movies: Seq<Seq<char>>,
    pub specials: Seq<Seq<char>>,
    pub extras: Seq<Seq<char>>,
    pub loose: Seq<Seq<char>>,
}

impl View for SeasonInfo {
    type V = SeasonModel;

    open spec fn view(&self) -> SeasonModel {
        SeasonModel {
            number: self.number,
            folder_name: self.folder_name@,
            path: self.path@,
            episodes: str_views(self.episodes@),
        }
    }
}

impl View for BatchAnalysis {
    type V = BatchModel;

    open spec fn view(&self) -> BatchModel {
        BatchModel {
            is_batch: self.is_batch,
            total: self.total_videos as nat,
            seasons: self.seasons@.map_values(|x: SeasonInfo| x@),
            ovas: str_views(self.specials.ovas@),
            movies: str_views(self.specials.movies@),
            specials: str_views(self.specials.specials@),
            extras: str_views(self.specials.extras@),
            loose: str_views(self.loose_episodes@),
        }
    }
}

/// A path joined with a file or folder name by a single separator.
pub open spec fn path_join(p: Seq<char>, f: Seq<char>) -> Seq<char> {
    p + "/"@ + f
}

/// The full paths of the video files of a listing, from index `i` on.
pub open spec fn videos_from(path: Seq<char>, files: Seq<String>, i: int) -> Seq<Seq<char>>
    decreases files.len() - i,
    when 0 <= i <= files.len()
{
    if i >= files.len() {
        Seq::empty()
    } else if crate::filename::spec_is_video_file(files[i]@) {
        seq![path_join(path, files[i]@)] + videos_from(path, files, i + 1)
    } else {
        videos_from(path, files, i + 1)
    }
}

/// The path field of a tree, as the string value it holds.
pub open spec fn tree_path(d: DirTree) -> String {
    d.path
}

pub open spec fn dir_videos(d: DirTree) -> Seq<Seq<char>> {
    videos_from(d.path@, d.files@, 0)
}

/// The number of files anywhere under a tree.
pub open spec fn count_files(t: DirTree) -> nat
    decreases t, 0int, 0int,
{
    t.files@.len() + count_sub_files(t.subdirs@, t.subdirs@.len() as int)
}

pub open spec fn count_sub_files(subs: Seq<DirTree>, k: int) -> nat
    decreases subs, 1int, k,
    when 0 <= k <= subs.len()
{
    if k <= 0 {
        0
    } else {
        count_sub_files(subs, k - 1) + count_files(subs[k - 1])
    }
}

/// The state of the analysis before any subdirectory is visited: the
/// loose videos of the root, and nothing else.
pub open spec fn model_base(t: DirTree) -> BatchModel {
    BatchModel {
        is_batch: false,
        total: 0,
        seasons: Seq::empty(),
        ovas: Seq::empty(),
        movies: Seq::empty(),
        specials: Seq::empty(),
        extras: Seq::empty(),
        loose: dir_videos(t),
    }
}

/// One subdirectory folded into the analysis: season folders contribute
/// a season, special folders fill their buckets, and unknown folders are
/// analyzed recursively — their seasons and specials are merged upward
/// if any season was found, else their videos count as loose episodes.
pub open spec fn model_step(acc: BatchModel, sub: DirTree) -> BatchModel
    decreases sub, 2int, 0int,
{
    let vids = dir_videos(sub);
    match spec_categorize(sub.name@) {
        FolderCategory::Season(n) => BatchModel {
            seasons: acc.seasons.push(
                SeasonModel {
                    number: n,
                    folder_name: sub.name@,
                    path: sub.path@,
                    episodes: vids,
                },
            ),
            ..acc
        },
        FolderCategory::Ova => BatchModel { ovas: acc.ovas + vids, ..acc },
        FolderCategory::Special => BatchModel { specials: acc.specials + vids, ..acc },
        FolderCategory::Movie => BatchModel { movies: acc.movies + vids, ..acc },
        FolderCategory::Extra => BatchModel { extras: acc.extras + vids, ..acc },
        FolderCategory::Unknown => {
            let m = spec_analyze(sub);
            if m.seasons.len() > 0 {
                BatchModel {
                    seasons: acc.seasons + m.seasons,
                    ovas: acc.ovas + m.ovas,
                    movies: acc.movies + m.movies,
                    specials: acc.specials + m.specials,
                    extras: acc.extras + m.extras,
                    ..acc
                }
            } else {
                BatchModel { loose: acc.loose + vids, ..acc }
            }
        },
    }
}

pub open spec fn fold_subdirs(base: BatchModel, subs: Seq<DirTree>, k: int) -> BatchModel
    decreases subs, 1int, k,
    when 0 <= k <= subs.len()
{
    if k <= 0 {
        base
    } else {
        model_step(fold_subdirs(base, subs, k - 1), subs[k - 1])
    }
}

/// Total episode count of a list of seasons.
pub open spec fn sum_eps(seasons: Seq<SeasonModel>) -> nat
    decreases seasons.len(),
{
    if seasons.len() == 0 {
        0
    } else {
        sum_eps(seasons.drop_last()) + seasons.last().episodes.len()
    }
}

/// Stable insertion of a season into a list sorted ascending by number:
/// the season goes after every season with a number not above its own.
pub open spec fn insert_season(sorted: Seq<SeasonModel>, x: SeasonModel) -> Seq<SeasonModel>
    decreases sorted.len(),
{
    if sorted.len() == 0 {
        seq![x]
    } else if sorted.last().number <= x.number {
        sorted.push(x)
    } else {
        insert_season(sorted.drop_last(), x).push(sorted.last())
    }
}

/// The stable sort of seasons ascending by number.
pub open spec fn sort_seasons(s: Seq<SeasonModel>) -> Seq<SeasonModel>
    decreases s.len(),
{
    if s.len() == 0 {
        Seq::empty()
    } else {
        insert_season(sort_seasons(s.drop_last()), s.last())
    }
}

pub open spec fn specials_count(m: BatchModel) -> nat {
    m.ovas.len() + m.movies.len() + m.specials.len() + m.extras.len()
}

/// Seasons sorted, totals filled in, and the batch decision taken: a
/// batch has a season, or at least four videos, or special content.
pub open spec fn finalize_model(m: BatchModel) -> BatchModel {
    let sorted = sort_seasons(m.seasons);
    let total = m.loose.len() + sum_eps(sorted) + specials_count(m);
    BatchModel {
        is_batch: sorted.len() > 0 || total >= 4 || specials_count(m) > 0,
        total: total,
        seasons: sorted,
        ..m
    }
}

/// The full analysis of a directory tree.
pub open spec fn spec_analyze(t: DirTree) -> BatchModel
    decreases t, 0int, 0int,
{
    finalize_model(fold_subdirs(model_base(t), t.subdirs@, t.subdirs@.len() as int))
}

// ---------------------------------------------------------------------------
// Size bounds for the analysis
// ---------------------------------------------------------------------------

/// Everything the analysis counts, before totals are taken.
pub open spec fn model_size(m: BatchModel) -> nat {
    m.loose.len() + sum_eps(m.seasons) + specials_count(m)
}

proof fn lemma_videos_len(path: Seq<char>, files: Seq<String>, i: int)
    requires
        0 <= i <= files.len(),
    ensures
        videos_from(path, files, i).len() <= files.len() - i,
    decreases files.len() - i,
{
    if i < files.len() {
        lemma_videos_len(path, files, i + 1);
    }
}

proof fn lemma_sum_eps_concat(a: Seq<SeasonModel>, b: Seq<SeasonModel>)
    ensures
        sum_eps(a + b) == sum_eps(a) + sum_eps(b),
    decreases b.len(),
{
    if b.len() == 0 {
        assert(a + b =~= a);
    } else {
        lemma_sum_eps_concat(a, b.drop_last());
        assert((a + b).drop_last() =~= a + b.drop_last());
        assert((a + b).last() == b.last());
    }
}

proof fn lemma_sum_eps_push(a: Seq<SeasonModel>, x: SeasonModel)
    ensures
        sum_eps(a.push(x)) == sum_eps(a) + x.episodes.len(),
{
    assert(a.push(x).drop_last() =~= a);
    assert(a.push(x).last() == x);
}

proof fn lemma_insert_season_sum(sorted: Seq<SeasonModel>, x: SeasonModel)
    ensures
        sum_eps(insert_season(sorted, x)) == sum_eps(sorted) + x.episodes.len(),
        insert_season(sorted, x).len() == sorted.len() + 1,
    decreases sorted.len(),
{
    if sorted.len() == 0 {
        assert(insert_season(sorted, x) == seq![x]);
        assert(seq![x].drop_last() =~= Seq::<SeasonModel>::empty());
        assert(seq![x].last() == x);
        assert(sum_eps(seq![x]) == sum_eps(seq![x].drop_last()) + seq![x].last().episodes.len());
        assert(sum_eps(seq![x].drop_last()) == 0);
    } else if sorted.last().number <= x.number {
        assert(insert_season(sorted, x) == sorted.push(x));
        lemma_sum_eps_push(sorted, x);
    } else {
        lemma_insert_season_sum(sorted.drop_last(), x);
        lemma_sum_eps_push(insert_season(sorted.drop_last(), x), sorted.last());
        assert(sum_eps(sorted) == sum_eps(sorted.drop_last()) + sorted.last().episodes.len());
    }
}

proof fn lemma_sort_seasons_sum(s: Seq<SeasonModel>)
    ensures
        sum_eps(sort_seasons(s)) == sum_eps(s),
        sort_seasons(s).len() == s.len(),
    decreases s.len(),
{
    if s.len() > 0 {
        lemma_sort_seasons_sum(s.drop_last());
        lemma_insert_season_sum(sort_seasons(s.drop_last()), s.last());
    }
}

/// The folded analysis never counts more than the files of the tree.
proof fn lemma_fold_size(base: BatchModel, subs: Seq<DirTree>, k: int)
    requires
        0 <= k <= subs.len(),
    ensures
        model_size(fold_subdirs(base, subs, k)) <= model_size(base) + count_sub_files(subs, k),
    decreases subs, 3int, k,
{
    if k > 0 {
        lemma_fold_size(base, subs, k - 1);
        let acc = fold_subdirs(base, subs, k - 1);
        let sub = subs[k - 1];
        let vids = dir_videos(sub);
        let stepped = model_step(acc, sub);
        assert(fold_subdirs(base, subs, k) == stepped);
        assert(count_sub_files(subs, k) == count_sub_files(subs, k - 1) + count_files(sub));
        lemma_videos_len(sub.path@, sub.files@, 0);
        lemma_count_files_le(sub);
        assert(vids.len() <= count_files(sub));
        match spec_categorize(sub.name@) {
            FolderCategory::Season(n) => {
                lemma_sum_eps_push(
                    acc.seasons,
                    SeasonModel {
                        number: n,
                        folder_name: sub.name@,
                        path: sub.path@,
                        episodes: vids,
                    },
                );
                assert(model_size(stepped) == model_size(acc) + vids.len());
            },
            FolderCategory::Unknown => {
                let m = spec_analyze(sub);
                lemma_analyze_size(sub);
                if m.seasons.len() > 0 {
                    lemma_sum_eps_concat(acc.seasons, m.seasons);
                    let folded_sub = fold_subdirs(
                        model_base(sub),
                        sub.subdirs@,
                        sub.subdirs@.len() as int,
                    );
                    assert(m == finalize_model(folded_sub));
                    lemma_sort_seasons_sum(folded_sub.seasons);
                    assert(m.total == m.loose.len() + sum_eps(m.seasons) + specials_count(m));
                    assert(sum_eps(m.seasons) + specials_count(m) <= count_files(sub));
                    assert(model_size(stepped) <= model_size(acc) + count_files(sub));
                } else {
                    assert(model_size(stepped) == model_size(acc) + vids.len());
                }
            },
            FolderCategory::Ova => {
                assert(model_size(stepped) == model_size(acc) + vids.len());
            },
            FolderCategory::Special => {
                assert(model_size(stepped) == model_size(acc) + vids.len());
            },
            FolderCategory::Movie => {
                assert(model_size(stepped) == model_size(acc) + vids.len());
            },
            FolderCategory::Extra => {
                assert(model_size(stepped) == model_size(acc) + vids.len());
            },
        }
    }
}

/// The videos of a directory are among its files.
proof fn lemma_count_files_le(t: DirTree)
    ensures
        dir_videos(t).len() <= count_files(t),
{
    lemma_videos_len(t.path@, t.files@, 0);
}

/// The total of a finished analysis never exceeds the file count of the
/// tree it analyzed.
pub proof fn lemma_analyze_size(t: DirTree)
    ensures
        spec_analyze(t).total <= count_files(t),
        model_size(fold_subdirs(model_base(t), t.subdirs@, t.subdirs@.len() as int)) <= count_files(
            t,
        ),
    decreases t, 4int, 0int,
{
    let base = model_base(t);
    let folded = fold_subdirs(base, t.subdirs@, t.subdirs@.len() as int);
    lemma_videos_len(t.path@, t.files@, 0);
    lemma_fold_size(base, t.subdirs@, t.subdirs@.len() as int);
    lemma_sort_seasons_sum(folded.seasons);
}

/// A subtree holds no more files than the whole.
proof fn lemma_count_sub_files_le(subs: Seq<DirTree>, k: int, j: int)
    requires
        0 <= j < k <= subs.len(),
    ensures
        count_files(subs[j]) <= count_sub_files(subs, k),
    decreases k,
{
    if j < k - 1 {
        lemma_count_sub_files_le(subs, k - 1, j);
    }
}

// ---------------------------------------------------------------------------
// Executable analysis
// ---------------------------------------------------------------------------

/// Joins a directory path and a name with a single separator.
pub fn join_path(p: &String, f: &String) -> (r: String)
    ensures
        r@ == path_join(p@, f@),
{
    let mut out = p.clone();
    out.append("/");
    out.append(f.as_str());
    out
}

/// The full paths of the video files directly in a directory.
fn collect_videos(d: &DirTree) -> (r: Vec<String>)
    ensures
        str_views(r@) == dir_videos(*d),
        r@.len() <= d.files@.len(),
{
    let n = d.files.len();
    let mut r: Vec<String> = Vec::new();
    let mut i: usize = 0;
    while i < n
        invariant
            i <= n,
            n == d.files@.len(),
            r@.len() <= i,
            dir_videos(*d) == str_views(r@) + videos_from(d.path@, d.files@, i as int),
        decreases n - i,
    {
        if crate::filename::is_video_file(d.files[i].as_str()) {
            let ghost old_r = r@;
            r.push(join_path(&d.path, &d.files[i]));
            proof {
                assert(str_views(r@) =~= str_views(old_r) + seq![
                    path_join(d.path@, d.files@[i as int]@),
                ]);
            }
        }
        i += 1;
    }
    proof {
        assert(str_views(r@) =~= dir_videos(*d));
    }
    r
}

/// Inserts a season into a vector sorted ascending by number, after all
/// seasons with a number not above its own.
fn insert_season_ex(out: &mut Vec<SeasonInfo>, x: SeasonInfo)
    ensures
        final(out)@.map_values(|e: SeasonInfo| e@) == insert_season(
            old(out)@.map_values(|e: SeasonInfo| e@),
            x@,
        ),
{
    let ghost s = old(out)@.map_values(|e: SeasonInfo| e@);
    let mut p = out.len();
    while p > 0 && out[p - 1].number > x.number
        invariant
            p <= out@.len(),
            out@ == old(out)@,
            forall|t: int| p <= t < out@.len() ==> #[trigger] out@[t].number > x.number,
        decreases p,
    {
        p -= 1;
    }
    proof {
        lemma_insert_decomp(s, x@, p as int);
        assert(p > 0 ==> s[p - 1].number <= x@.number);
    }
    out.insert(p, x);
    proof {
        assert(final(out)@.map_values(|e: SeasonInfo| e@) =~= s.subrange(0, p as int) + seq![x@]
            + s.subrange(p as int, s.len() as int));
    }
}

/// The recursive insertion of a season lands exactly at the first
/// position, from the right, whose predecessor does not exceed it.
proof fn lemma_insert_decomp(s: Seq<SeasonModel>, x: SeasonModel, p: int)
    requires
        0 <= p <= s.len(),
        forall|t: int| p <= t < s.len() ==> #[trigger] s[t].number > x.number,
        p > 0 ==> s[p - 1].number <= x.number,
    ensures
        insert_season(s, x) == s.subrange(0, p) + seq![x] + s.subrange(p, s.len() as int),
    decreases s.len(),
{
    if s.len() == 0 {
        assert(insert_season(s, x) =~= s.subrange(0, p) + seq![x] + s.subrange(p, s.len() as int));
    } else if s.last().number <= x.number {
        assert(p == s.len());
        assert(insert_season(s, x) =~= s.subrange(0, p) + seq![x] + s.subrange(p, s.len() as int));
    } else {
        lemma_insert_decomp(s.drop_last(), x, p);
        assert(s.drop_last().subrange(0, p) =~= s.subrange(0, p));
        assert(s.drop_last().subrange(p, s.len() - 1) =~= s.subrange(p, s.len() - 1));
        assert(insert_season(s, x) =~= s.subrange(0, p) + seq![x] + s.subrange(p, s.len() as int));
    }
}

/// Sorts seasons ascending by number; the sort is stable, so seasons
/// with equal numbers keep their discovery order.
fn sort_seasons_ex(v: &mut Vec<SeasonInfo>)
    ensures
        final(v)@.map_values(|e: SeasonInfo| e@) == sort_seasons(
            old(v)@.map_values(|e: SeasonInfo| e@),
        ),
{
    let ghost orig = old(v)@.map_values(|e: SeasonInfo| e@);
    let mut out: Vec<SeasonInfo> = Vec::new();
    let mut i: usize = 0;
    let n = v.len();
    while i < n
        invariant
            i <= n,
            n == v@.len(),
            v@ == old(v)@,
            out@.map_values(|e: SeasonInfo| e@) == sort_seasons(
                orig.subrange(0, i as int),
            ),
            orig == old(v)@.map_values(|e: SeasonInfo| e@),
        decreases n - i,
    {
        let x = v[i].clone_parts();
        proof {
            assert(orig.subrange(0, i + 1).drop_last() =~= orig.subrange(0, i as int));
            assert(orig.subrange(0, i + 1).last() == orig[i as int]);
        }
        insert_season_ex(&mut out, x);
        i += 1;
    }
    proof {
        assert(orig.subrange(0, n as int) =~= orig);
    }
    *v = out;
}

impl SeasonInfo {
    /// A field-for-field copy.
    fn clone_parts(&self) -> (r: SeasonInfo)
        ensures
            r@ == self@,
    {
        SeasonInfo {
            number: self.number,
            folder_name: self.folder_name.clone(),
            path: self.path.clone(),
            episodes: clone_strings(&self.episodes),
        }
    }
}

/// A field-for-field copy of a vector of strings.
pub fn clone_strings(v: &Vec<String>) -> (r: Vec<String>)
    ensures
        r@.len() == v@.len(),
        str_views(r@) == str_views(v@),
{
    let n = v.len();
    let mut r: Vec<String> = Vec::new();
    let mut i: usize = 0;
    while i < n
        invariant
            i <= n,
            n == v@.len(),
            r@.len() == i,
            forall|t: int| 0 <= t < i ==> #[trigger] r@[t]@ == v@[t]@,
        decreases n - i,
    {
        r.push(v[i].clone());
        i += 1;
    }
    proof {
        assert(str_views(r@) =~= str_views(v@));
    }
    r
}

// ---------------------------------------------------------------------------
// The analyzer
// ---------------------------------------------------------------------------

/// The totals invariant of an analysis: the video count equals the loose
/// episodes plus every season's episodes plus every special bucket.
pub open spec fn analysis_consistent(b: BatchAnalysis) -> bool {
    b@.total == b@.loose.len() + sum_eps(b@.seasons) + specials_count(b@)
}

proof fn lemma_sum_eps_prefix(s: Seq<SeasonModel>, j: int)
    requires
        0 <= j <= s.len(),
    ensures
        sum_eps(s.subrange(0, j)) <= sum_eps(s),
    decreases s.len() - j,
{
    if j < s.len() {
        lemma_sum_eps_prefix(s, j + 1);
        assert(s.subrange(0, j + 1).drop_last() =~= s.subrange(0, j));
    } else {
        assert(s.subrange(0, j) =~= s);
    }
}

/// Analyzes a directory tree into seasons, special buckets and loose
/// episodes: video files in the root are loose; season subfolders
/// contribute seasons with their own listings; OVA, special, movie and
/// extra subfolders fill their buckets; unknown subfolders are analyzed
/// recursively and their seasons merged upward, or their videos folded
/// into the loose episodes. Seasons come out sorted ascending by number,
/// the total equals the sum of all parts, and the result is a batch
/// exactly when a season was found, four or more videos exist, or a
/// special bucket is non-empty.
pub fn analyze_batch(tree: &DirTree) -> (r: BatchAnalysis)
    requires
        count_files(*tree) <= usize::MAX,
    ensures
        r@ == spec_analyze(*tree),
        analysis_consistent(r),
    decreases *tree,
{
    let mut loose = collect_videos(tree);
    let mut seasons: Vec<SeasonInfo> = Vec::new();
    let mut ovas: Vec<String> = Vec::new();
    let mut movies: Vec<String> = Vec::new();
    let mut specials_v: Vec<String> = Vec::new();
    let mut extras: Vec<String> = Vec::new();
    let nsub = tree.subdirs.len();
    let mut k: usize = 0;
    while k < nsub
        invariant
            k <= nsub,
            nsub == tree.subdirs@.len(),
            count_files(*tree) <= usize::MAX,
            seasons@.map_values(|e: SeasonInfo| e@) == fold_subdirs(
                model_base(*tree),
                tree.subdirs@,
                k as int,
            ).seasons,
            str_views(ovas@) == fold_subdirs(model_base(*tree), tree.subdirs@, k as int).ovas,
            str_views(movies@) == fold_subdirs(model_base(*tree), tree.subdirs@, k as int).movies,
            str_views(specials_v@) == fold_subdirs(
                model_base(*tree),
                tree.subdirs@,
                k as int,
            ).specials,
            str_views(extras@) == fold_subdirs(model_base(*tree), tree.subdirs@, k as int).extras,
            str_views(loose@) == fold_subdirs(model_base(*tree), tree.subdirs@, k as int).loose,
        decreases nsub - k,
    {
        let ghost acc = fold_subdirs(model_base(*tree), tree.subdirs@, k as int);
        let sub = &tree.subdirs[k];
        proof {
            assert(fold_subdirs(model_base(*tree), tree.subdirs@, k + 1) == model_step(
                acc,
                tree.subdirs@[k as int],
            ));
        }
        let cat = categorize_folder(sub.name.as_str());
        match cat {
            FolderCategory::Season(n) => {
                let eps = collect_videos(sub);
                let ghost pre = seasons@.map_values(|e: SeasonInfo| e@);
                seasons.push(
                    SeasonInfo {
                        number: n,
                        folder_name: sub.name.clone(),
                        path: sub.path.clone(),
                        episodes: eps,
                    },
                );
                proof {
                    assert(seasons@.map_values(|e: SeasonInfo| e@) =~= pre.push(
                        SeasonModel {
                            number: n,
                            folder_name: sub.name@,
                            path: sub.path@,
                            episodes: dir_videos(*sub),
                        },
                    ));
                }
            },
            FolderCategory::Ova => {
                let mut vids = collect_videos(sub);
                let ghost pre = str_views(ovas@);
                let ghost vs = str_views(vids@);
                ovas.append(&mut vids);
                proof {
                    assert(str_views(ovas@) =~= pre + vs);
                }
            },
            FolderCategory::Special => {
                let mut vids = collect_videos(sub);
                let ghost pre = str_views(specials_v@);
                let ghost vs = str_views(vids@);
                specials_v.append(&mut vids);
                proof {
                    assert(str_views(specials_v@) =~= pre + vs);
                }
            },
            FolderCategory::Movie => {
                let mut vids = collect_videos(sub);
                let ghost pre = str_views(movies@);
                let ghost vs = str_views(vids@);
                movies.append(&mut vids);
                proof {
                    assert(str_views(movies@) =~= pre + vs);
                }
            },
            FolderCategory::Extra => {
                let mut vids = collect_videos(sub);
                let ghost pre = str_views(extras@);
                let ghost vs = str_views(vids@);
                extras.append(&mut vids);
                proof {
                    assert(str_views(extras@) =~= pre + vs);
                }
            },
            FolderCategory::Unknown => {
                proof {
                    lemma_count_sub_files_le(tree.subdirs@, nsub as int, k as int);
                }
                let mut m = analyze_batch(sub);
                let ghost msubs = m@.seasons;
                if m.seasons.len() > 0 {
                    let ghost pre = seasons@.map_values(|e: SeasonInfo| e@);
                    let ghost pre_seasons_vec = m.seasons@;
                    seasons.append(&mut m.seasons);
                    proof {
                        assert(seasons@.map_values(|e: SeasonInfo| e@) =~= pre + pre_seasons_vec.map_values(
                            |e: SeasonInfo| e@,
                        ));
                    }
                    let ghost pre_o = str_views(ovas@);
                    let ghost vs_o = str_views(m.specials.ovas@);
                    ovas.append(&mut m.specials.ovas);
                    let ghost pre_m = str_views(movies@);
                    let ghost vs_m = str_views(m.specials.movies@);
                    movies.append(&mut m.specials.movies);
                    let ghost pre_s = str_views(specials_v@);
                    let ghost vs_s = str_views(m.specials.specials@);
                    specials_v.append(&mut m.specials.specials);
                    let ghost pre_e = str_views(extras@);
                    let ghost vs_e = str_views(m.specials.extras@);
                    extras.append(&mut m.specials.extras);
                    proof {
                        assert(str_views(ovas@) =~= pre_o + vs_o);
                        assert(str_views(movies@) =~= pre_m + vs_m);
                        assert(str_views(specials_v@) =~= pre_s + vs_s);
                        assert(str_views(extras@) =~= pre_e + vs_e);
                    }
                } else {
                    let mut vids = collect_videos(sub);
                    let ghost pre = str_views(loose@);
                    let ghost vs = str_views(vids@);
                    loose.append(&mut vids);
                    proof {
                        assert(str_views(loose@) =~= pre + vs);
                    }
                }
            },
        }
        k += 1;
    }
    let ghost folded = fold_subdirs(model_base(*tree), tree.subdirs@, nsub as int);
    sort_seasons_ex(&mut seasons);
    proof {
        lemma_analyze_size(*tree);
        lemma_sort_seasons_sum(folded.seasons);
    }
    let ghost sorted = sort_seasons(folded.seasons);
    let mut eps_total: usize = 0;
    let ns = seasons.len();
    let mut j: usize = 0;
    while j < ns
        invariant
            j <= ns,
            ns == seasons@.len(),
            seasons@.map_values(|e: SeasonInfo| e@) == sorted,
            eps_total == sum_eps(sorted.subrange(0, j as int)),
            sum_eps(sorted) + model_size(folded) - sum_eps(folded.seasons) <= usize::MAX,
            sum_eps(sorted) == sum_eps(folded.seasons),
        decreases ns - j,
    {
        proof {
            lemma_sum_eps_prefix(sorted, j + 1);
            assert(sorted.subrange(0, j + 1).drop_last() =~= sorted.subrange(0, j as int));
            assert(sorted.subrange(0, j + 1).last() == sorted[j as int]);
            assert(sorted[j as int].episodes.len() == str_views(
                seasons@[j as int].episodes@,
            ).len());
        }
        eps_total = eps_total + seasons[j].episodes.len();
        j += 1;
    }
    proof {
        assert(sorted.subrange(0, ns as int) =~= sorted);
    }
    let total = loose.len() + eps_total + ovas.len() + movies.len() + specials_v.len()
        + extras.len();
    let has_specials = !(ovas.len() == 0 && movies.len() == 0 && specials_v.len() == 0
        && extras.len() == 0);
    let is_batch = seasons.len() > 0 || total >= 4 || has_specials;
    let r = BatchAnalysis {
        is_batch,
        total_videos: total,
        seasons,
        specials: SpecialsInfo { ovas, movies, specials: specials_v, extras },
        loose_episodes: loose,
    };
    proof {
        assert(r@ =~~= spec_analyze(*tree));
    }
    r
}

// ---------------------------------------------------------------------------
// Convenience methods and the quick batch test
// ---------------------------------------------------------------------------

impl SpecialsInfo {
    /// No bucket holds anything.
    pub fn is_empty(&self) -> (r: bool)
        ensures
            r == (self.ovas@.len() == 0 && self.movies@.len() == 0 && self.specials@.len() == 0
                && self.extras@.len() == 0),
    {
        self.ovas.is_empty() && self.movies.is_empty() && self.specials.is_empty()
            && self.extras.is_empty()
    }

    /// The number of entries across all buckets.
    pub fn total_count(&self) -> (r: usize)
        requires
            self.ovas@.len() + self.movies@.len() + self.specials@.len() + self.extras@.len()
                <= usize::MAX,
        ensures
            r == self.ovas@.len() + self.movies@.len() + self.specials@.len()
                + self.extras@.len(),
    {
        self.ovas.len() + self.movies.len() + self.specials.len() + self.extras.len()
    }
}

impl Default for SpecialsInfo {
    /// Four empty buckets.
    fn default() -> (r: SpecialsInfo)
        ensures
            r.ovas@.len() == 0,
            r.movies@.len() == 0,
            r.specials@.len() == 0,
            r.extras@.len() == 0,
    {
        SpecialsInfo { ovas: Vec::new(), movies: Vec::new(), specials: Vec::new(), extras: Vec::new() }
    }
}

impl BatchAnalysis {
    /// An empty analysis: no videos, no seasons, not a batch.
    pub fn empty() -> (r: BatchAnalysis)
        ensures
            !r.is_batch,
            r.total_videos == 0,
            r.seasons@.len() == 0,
            r.loose_episodes@.len() == 0,
            r.specials.ovas@.len() == 0,
            r.specials.movies@.len() == 0,
            r.specials.specials@.len() == 0,
            r.specials.extras@.len() == 0,
            analysis_consistent(r),
    {
        let r = BatchAnalysis {
            is_batch: false,
            total_videos: 0,
            seasons: Vec::new(),
            specials: SpecialsInfo {
                ovas: Vec::new(),
                movies: Vec::new(),
                specials: Vec::new(),
                extras: Vec::new(),
            },
            loose_episodes: Vec::new(),
        };
        proof {
            assert(r@.seasons =~= Seq::<SeasonModel>::empty());
        }
        r
    }

    /// A summary for display: a comma-separated list of the non-empty
    /// parts, or the word for an empty analysis.
    #[verifier::rlimit(60)]
    pub fn summary(&self) -> (r: String)
        ensures
            r@ == spec_summary(*self),
    {
        let ghost m = self@;
        let mut parts: Vec<char> = Vec::new();
        let mut first = true;
        if self.seasons.len() > 0 {
            push_dec64(&mut parts, self.seasons.len() as u64);
            push_str_chars(&mut parts, " season(s)");
            first = false;
        }
        proof {
            assert(parts@ =~= spec_summary_p1(m));
            assert(first == (spec_summary_p1(m).len() == 0));
        }
        if self.specials.ovas.len() > 0 {
            if !first {
                push_str_chars(&mut parts, ", ");
            }
            push_dec64(&mut parts, self.specials.ovas.len() as u64);
            push_str_chars(&mut parts, " OVA(s)");
            first = false;
        }
        proof {
            assert(parts@ =~= spec_summary_p2(m));
            assert(first == (spec_summary_p2(m).len() == 0));
        }
        if self.specials.movies.len() > 0 {
            if !first {
                push_str_chars(&mut parts, ", ");
            }
            push_dec64(&mut parts, self.specials.movies.len() as u64);
            push_str_chars(&mut parts, " movie(s)");
            first = false;
        }
        proof {
            assert(parts@ =~= spec_summary_p3(m));
            assert(first == (spec_summary_p3(m).len() == 0));
        }
        if self.specials.specials.len() > 0 {
            if !first {
                push_str_chars(&mut parts, ", ");
            }
            push_dec64(&mut parts, self.specials.specials.len() as u64);
            push_str_chars(&mut parts, " special(s)");
            first = false;
        }
        proof {
            assert(parts@ =~= spec_summary_p4(m));
            assert(first == (spec_summary_p4(m).len() == 0));
        }
        if self.loose_episodes.len() > 0 {
            if !first {
                push_str_chars(&mut parts, ", ");
            }
            push_dec64(&mut parts, self.loose_episodes.len() as u64);
            push_str_chars(&mut parts, " episode(s)");
            first = false;
        }
        proof {
            assert(parts@ =~= spec_summary_p5(m));
            assert(first == (spec_summary_p5(m).len() == 0));
        }
        if first {
            let r = String::from_str("Empty");
            proof {
                assert(r@ == spec_summary(*self));
            }
            r
        } else {
            let r = chars_to_string(&parts);
            proof {
                assert(parts@ =~= spec_summary(*self));
            }
            r
        }
    }
}

/// One optional summary fragment: the count and its label.
pub open spec fn summary_part(n: nat, label: Seq<char>) -> Seq<char> {
    dec_digits(n) + label
}

pub open spec fn spec_summary_p1(m: BatchModel) -> Seq<char> {
    if m.seasons.len() > 0 {
        summary_part(m.seasons.len(), " season(s)"@)
    } else {
        Seq::empty()
    }
}

pub open spec fn summary_extend(acc: Seq<char>, part: Seq<char>) -> Seq<char> {
    (if acc.len() > 0 {
        acc + ", "@
    } else {
        acc
    }) + part
}

pub open spec fn spec_summary_p2(m: BatchModel) -> Seq<char> {
    if m.ovas.len() > 0 {
        summary_extend(spec_summary_p1(m), summary_part(m.ovas.len(), " OVA(s)"@))
    } else {
        spec_summary_p1(m)
    }
}

pub open spec fn spec_summary_p3(m: BatchModel) -> Seq<char> {
    if m.movies.len() > 0 {
        summary_extend(spec_summary_p2(m), summary_part(m.movies.len(), " movie(s)"@))
    } else {
        spec_summary_p2(m)
    }
}

pub open spec fn spec_summary_p4(m: BatchModel) -> Seq<char> {
    if m.specials.len() > 0 {
        summary_extend(spec_summary_p3(m), summary_part(m.specials.len(), " special(s)"@))
    } else {
        spec_summary_p3(m)
    }
}

pub open spec fn spec_summary_p5(m: BatchModel) -> Seq<char> {
    if m.loose.len() > 0 {
        summary_extend(spec_summary_p4(m), summary_part(m.loose.len(), " episode(s)"@))
    } else {
        spec_summary_p4(m)
    }
}

/// The summary of an analysis, built from its non-empty parts in a
/// fixed order.
pub open spec fn spec_summary(b: BatchAnalysis) -> Seq<char> {
    let p5 = spec_summary_p5(b@);
    if p5.len() == 0 {
        "Empty"@
    } else {
        p5
    }
}

/// Law: the analysis is a function of the directory tree alone, so
/// re-running it on an unchanged tree yields an identical result —
/// the same totals, seasons and special buckets.
pub proof fn lemma_analyze_deterministic(t1: DirTree, t2: DirTree)
    requires
        t1 == t2,
    ensures
        spec_analyze(t1) == spec_analyze(t2),
{
}

/// The quick test for a batch folder: it has subdirectories at all, or
/// at least four videos directly in it.
pub open spec fn spec_is_batch_folder(t: DirTree) -> bool {
    t.subdirs@.len() > 0 || dir_videos(t).len() >= 4
}

/// Quick check whether a directory looks like a batch download: any
/// subdirectory structure, or four or more videos side by side.
pub fn is_batch_folder(tree: &DirTree) -> (r: bool)
    ensures
        r == spec_is_batch_folder(*tree),
{
    if tree.subdirs.len() > 0 {
        return true;
    }
    let vids = collect_videos(tree);
    vids.len() >= 4
}

} // verus!
