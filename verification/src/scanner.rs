//! Library scanner: turns directory trees into show records, using the
//! folder categorizer and the filename parser, with episodes and
//! seasons sorted and watchable totals filled in.

use vstd::prelude::*;

use crate::batch::{spec_categorize, DirTree, FolderCategory};
use crate::filename::{
    is_video_file, make_show_id, make_show_title, parse_episode_number, spec_is_video_file,
    spec_make_show_id, spec_make_show_title, spec_parse_episode,
};
use crate::models::{Episode, Season, SeasonScan, Show, ShowModel};
use crate::text::{lex_lt, lex_lt_ex, lower_seq, lower_vec, to_chars};

verus! {

// ---------------------------------------------------------------------------
// Episode collection
// ---------------------------------------------------------------------------

/// The episode a video file becomes: its parsed number, or zero when no
/// pattern matched, which callers treat as "needs manual ordering".
pub open spec fn episode_of(f: String, rel: Option<String>) -> Episode {
    Episode {
        number: match spec_parse_episode(f@) {
            Some(n) => n,
            None => 0,
        },
        filename: f,
        watched: false,
        last_position: 0,
        relative_path: rel,
    }
}

/// The episodes of the video files of a listing, from index `i` on, in
/// listing order.
pub open spec fn eps_from(files: Seq<String>, rel: Option<String>, i: int) -> Seq<Episode>
    decreases files.len() - i,
    when 0 <= i <= files.len()
{
    if i >= files.len() {
        Seq::empty()
    } else if spec_is_video_file(files[i]@) {
        seq![episode_of(files[i], rel)] + eps_from(files, rel, i + 1)
    } else {
        eps_from(files, rel, i + 1)
    }
}

/// Stable insertion of an episode into a list sorted ascending by
/// number.
pub open spec fn insert_episode(sorted: Seq<Episode>, x: Episode) -> Seq<Episode>
    decreases sorted.len(),
{
    if sorted.len() == 0 {
        seq![x]
    } else if sorted.last().number <= x.number {
        sorted.push(x)
    } else {
        insert_episode(sorted.drop_last(), x).push(sorted.last())
    }
}

/// The stable sort of episodes ascending by number.
pub open spec fn sort_episodes(s: Seq<Episode>) -> Seq<Episode>
    decreases s.len(),
{
    if s.len() == 0 {
        Seq::empty()
    } else {
        insert_episode(sort_episodes(s.drop_last()), s.last())
    }
}

/// The sorted episode listing of one directory.
pub open spec fn spec_collect_episodes(d: DirTree, rel: Option<String>) -> Seq<Episode> {
    sort_episodes(eps_from(d.files@, rel, 0))
}

proof fn lemma_insert_episode_decomp(s: Seq<Episode>, x: Episode, p: int)
    requires
        0 <= p <= s.len(),
        forall|t: int| p <= t < s.len() ==> (#[trigger] s[t]).number > x.number,
        p > 0 ==> s[p - 1].number <= x.number,
    ensures
        insert_episode(s, x) == s.subrange(0, p) + seq![x] + s.subrange(p, s.len() as int),
    decreases s.len(),
{
    if s.len() == 0 {
        assert(insert_episode(s, x) =~= s.subrange(0, p) + seq![x] + s.subrange(
            p,
            s.len() as int,
        ));
    } else if s.last().number <= x.number {
        assert(p == s.len());
        assert(insert_episode(s, x) =~= s.subrange(0, p) + seq![x] + s.subrange(
            p,
            s.len() as int,
        ));
    } else {
        lemma_insert_episode_decomp(s.drop_last(), x, p);
        assert(s.drop_last().subrange(0, p) =~= s.subrange(0, p));
        assert(s.drop_last().subrange(p, s.len() - 1) =~= s.subrange(p, s.len() - 1));
        assert(insert_episode(s, x) =~= s.subrange(0, p) + seq![x] + s.subrange(
            p,
            s.len() as int,
        ));
    }
}

proof fn lemma_eps_from_len(files: Seq<String>, rel: Option<String>, i: int)
    requires
        0 <= i <= files.len(),
    ensures
        eps_from(files, rel, i).len() <= files.len() - i,
    decreases files.len() - i,
{
    if i < files.len() {
        lemma_eps_from_len(files, rel, i + 1);
    }
}

proof fn lemma_insert_episode_len(s: Seq<Episode>, x: Episode)
    ensures
        insert_episode(s, x).len() == s.len() + 1,
    decreases s.len(),
{
    if s.len() > 0 && !(s.last().number <= x.number) {
        lemma_insert_episode_len(s.drop_last(), x);
    }
}

proof fn lemma_sort_episodes_len(s: Seq<Episode>)
    ensures
        sort_episodes(s).len() == s.len(),
    decreases s.len(),
{
    if s.len() > 0 {
        lemma_sort_episodes_len(s.drop_last());
        lemma_insert_episode_len(sort_episodes(s.drop_last()), s.last());
    }
}

fn insert_episode_ex(out: &mut Vec<Episode>, x: Episode)
    ensures
        final(out)@ == insert_episode(old(out)@, x),
{
    let mut p = out.len();
    while p > 0 && out[p - 1].number > x.number
        invariant
            p <= out@.len(),
            out@ == old(out)@,
            forall|t: int| p <= t < out@.len() ==> (#[trigger] out@[t]).number > x.number,
        decreases p,
    {
        p -= 1;
    }
    proof {
        lemma_insert_episode_decomp(out@, x, p as int);
    }
    let ghost pre = out@;
    out.insert(p, x);
    proof {
        assert(final(out)@ =~= pre.subrange(0, p as int) + seq![x] + pre.subrange(
            p as int,
            pre.len() as int,
        ));
    }
}

/// The sorted episodes of the video files directly in a directory,
/// optionally carrying a relative path.
pub fn collect_episodes_from_dir(d: &DirTree, relative: &Option<String>) -> (r: Vec<Episode>)
    ensures
        r@ == spec_collect_episodes(*d, *relative),
        r@.len() <= d.files@.len(),
{
    let n = d.files.len();
    let mut out: Vec<Episode> = Vec::new();
    let mut i: usize = 0;
    while i < n
        invariant
            i <= n,
            n == d.files@.len(),
            out@ == sort_episodes(eps_prefix(d.files@, *relative, i as int)),
            out@.len() <= i,
        decreases n - i,
    {
        if is_video_file(d.files[i].as_str()) {
            let number = match parse_episode_number(d.files[i].as_str()) {
                Some(x) => x,
                None => 0,
            };
            let rel: Option<String> = match relative {
                Some(s) => Some(s.clone()),
                None => None,
            };
            let e = Episode {
                number,
                filename: d.files[i].clone(),
                watched: false,
                last_position: 0,
                relative_path: rel,
            };
            proof {
                assert(e == episode_of(d.files@[i as int], *relative));
                lemma_eps_prefix_step(d.files@, *relative, i as int);
                lemma_insert_episode_len(out@, e);
            }
            insert_episode_ex(&mut out, e);
            proof {
                assert(eps_prefix(d.files@, *relative, i + 1).drop_last() =~= eps_prefix(
                    d.files@,
                    *relative,
                    i as int,
                ));
                assert(eps_prefix(d.files@, *relative, i + 1).last() == e);
            }
        } else {
            proof {
                lemma_eps_prefix_step(d.files@, *relative, i as int);
            }
        }
        i += 1;
    }
    proof {
        lemma_eps_prefix_full(d.files@, *relative, n as int);
        lemma_eps_from_len(d.files@, *relative, 0);
        lemma_sort_episodes_len(eps_from(d.files@, *relative, 0));
    }
    out
}

/// The episodes of the video files among the first `i` listing entries.
pub open spec fn eps_prefix(files: Seq<String>, rel: Option<String>, i: int) -> Seq<Episode>
    decreases i,
    when 0 <= i <= files.len()
{
    if i <= 0 {
        Seq::empty()
    } else if spec_is_video_file(files[i - 1]@) {
        eps_prefix(files, rel, i - 1).push(episode_of(files[i - 1], rel))
    } else {
        eps_prefix(files, rel, i - 1)
    }
}

proof fn lemma_eps_prefix_step(files: Seq<String>, rel: Option<String>, i: int)
    requires
        0 <= i < files.len(),
    ensures
        spec_is_video_file(files[i]@) ==> eps_prefix(files, rel, i + 1) == eps_prefix(
            files,
            rel,
            i,
        ).push(episode_of(files[i], rel)),
        !spec_is_video_file(files[i]@) ==> eps_prefix(files, rel, i + 1) == eps_prefix(
            files,
            rel,
            i,
        ),
{
}

proof fn lemma_eps_prefix_full(files: Seq<String>, rel: Option<String>, i: int)
    requires
        0 <= i <= files.len(),
    ensures
        eps_prefix(files, rel, i) + eps_from(files, rel, i) =~= eps_from(files, rel, 0),
    decreases i,
{
    if i == 0 {
        assert(eps_prefix(files, rel, 0) + eps_from(files, rel, 0) =~= eps_from(files, rel, 0));
    } else {
        lemma_eps_prefix_full(files, rel, i - 1);
        if spec_is_video_file(files[i - 1]@) {
            assert(eps_from(files, rel, i - 1) =~= seq![episode_of(files[i - 1], rel)] + eps_from(
                files,
                rel,
                i,
            ));
            assert(eps_prefix(files, rel, i) + eps_from(files, rel, i) =~= eps_prefix(
                files,
                rel,
                i - 1,
            ) + eps_from(files, rel, i - 1));
        }
    }
}

// ---------------------------------------------------------------------------
// Scanning one show directory
// ---------------------------------------------------------------------------

/// The parts of a show while its directory is being scanned.
pub ghost struct ShowScan {
    pub episodes: Seq<Episode>,
    pub seasons: Seq<SeasonScan>,
    pub specials: Seq<Episode>,
}

pub open spec fn scan_base(t: DirTree) -> ShowScan {
    ShowScan {
        episodes: spec_collect_episodes(t, None),
        seasons: Seq::empty(),
        specials: Seq::empty(),
    }
}

/// One subdirectory folded into a show: season folders with episodes
/// become seasons; OVA, special, movie and extra folders feed the
/// specials; unknown folders with videos feed the flat episodes.
pub open spec fn scan_step(acc: ShowScan, sub: DirTree) -> ShowScan {
    let eps = spec_collect_episodes(sub, Some(sub.name));
    match spec_categorize(sub.name@) {
        FolderCategory::Season(num) => if eps.len() > 0 {
            ShowScan {
                seasons: acc.seasons.push(
                    SeasonScan {
                        number: num,
                        folder_name: sub.name@,
                        path: sub.path@,
                        episodes: eps,
                    },
                ),
                ..acc
            }
        } else {
            acc
        },
        FolderCategory::Ova => ShowScan { specials: acc.specials + eps, ..acc },
        FolderCategory::Special => ShowScan { specials: acc.specials + eps, ..acc },
        FolderCategory::Movie => ShowScan { specials: acc.specials + eps, ..acc },
        FolderCategory::Extra => ShowScan { specials: acc.specials + eps, ..acc },
        FolderCategory::Unknown => if eps.len() > 0 {
            ShowScan { episodes: acc.episodes + eps, ..acc }
        } else {
            acc
        },
    }
}

pub open spec fn scan_fold(t: DirTree, k: int) -> ShowScan
    decreases k,
    when 0 <= k <= t.subdirs@.len()
{
    if k <= 0 {
        scan_base(t)
    } else {
        scan_step(scan_fold(t, k - 1), t.subdirs@[k - 1])
    }
}

/// Stable insertion of a scanned season ascending by number.
pub open spec fn insert_sseason(sorted: Seq<SeasonScan>, x: SeasonScan) -> Seq<SeasonScan>
    decreases sorted.len(),
{
    if sorted.len() == 0 {
        seq![x]
    } else if sorted.last().number <= x.number {
        sorted.push(x)
    } else {
        insert_sseason(sorted.drop_last(), x).push(sorted.last())
    }
}

pub open spec fn sort_sseasons(s: Seq<SeasonScan>) -> Seq<SeasonScan>
    decreases s.len(),
{
    if s.len() == 0 {
        Seq::empty()
    } else {
        insert_sseason(sort_sseasons(s.drop_last()), s.last())
    }
}

/// The finished scan of a show directory: subdirectories folded in and
/// seasons sorted ascending.
pub open spec fn scanned_show(t: DirTree) -> ShowScan {
    let m = scan_fold(t, t.subdirs@.len() as int);
    ShowScan { seasons: sort_sseasons(m.seasons), ..m }
}

pub open spec fn sseason_eps(seasons: Seq<SeasonScan>, k: int) -> nat
    decreases seasons.len() - k,
    when 0 <= k <= seasons.len()
{
    if k >= seasons.len() {
        0
    } else {
        seasons[k].episodes.len() + sseason_eps(seasons, k + 1)
    }
}

/// The total episode count of the finished scan.
pub open spec fn scan_total(t: DirTree) -> nat {
    let m = scanned_show(t);
    m.episodes.len() + sseason_eps(m.seasons, 0) + m.specials.len()
}

proof fn lemma_sseason_eps_push(a: Seq<SeasonScan>, x: SeasonScan)
    ensures
        sseason_eps(a.push(x), 0) == sseason_eps(a, 0) + x.episodes.len(),
    decreases a.len(),
{
    lemma_sseason_eps_push_from(a, x, 0);
}

proof fn lemma_sseason_eps_push_from(a: Seq<SeasonScan>, x: SeasonScan, k: int)
    requires
        0 <= k <= a.len(),
    ensures
        sseason_eps(a.push(x), k) == sseason_eps(a, k) + x.episodes.len(),
    decreases a.len() - k,
{
    if k < a.len() {
        lemma_sseason_eps_push_from(a, x, k + 1);
        assert(a.push(x)[k] == a[k]);
    } else {
        assert(sseason_eps(a.push(x), k) == a.push(x)[k].episodes.len() + sseason_eps(
            a.push(x),
            k + 1,
        ));
        assert(a.push(x)[k] == x);
    }
}

proof fn lemma_insert_sseason_sum(sorted: Seq<SeasonScan>, x: SeasonScan)
    ensures
        sseason_eps(insert_sseason(sorted, x), 0) == sseason_eps(sorted, 0) + x.episodes.len(),
        insert_sseason(sorted, x).len() == sorted.len() + 1,
    decreases sorted.len(),
{
    if sorted.len() == 0 {
        assert(insert_sseason(sorted, x) == seq![x]);
        lemma_sseason_eps_push_from(Seq::<SeasonScan>::empty(), x, 0);
        assert(Seq::<SeasonScan>::empty().push(x) =~= seq![x]);
    } else if sorted.last().number <= x.number {
        lemma_sseason_eps_push(sorted, x);
    } else {
        lemma_insert_sseason_sum(sorted.drop_last(), x);
        lemma_sseason_eps_push(insert_sseason(sorted.drop_last(), x), sorted.last());
        lemma_sseason_eps_push(sorted.drop_last(), sorted.last());
        assert(sorted.drop_last().push(sorted.last()) =~= sorted);
    }
}

proof fn lemma_sort_sseasons_sum(s: Seq<SeasonScan>)
    ensures
        sseason_eps(sort_sseasons(s), 0) == sseason_eps(s, 0),
        sort_sseasons(s).len() == s.len(),
    decreases s.len(),
{
    if s.len() > 0 {
        lemma_sort_sseasons_sum(s.drop_last());
        lemma_insert_sseason_sum(sort_sseasons(s.drop_last()), s.last());
        lemma_sseason_eps_push(s.drop_last(), s.last());
        assert(s.drop_last().push(s.last()) =~= s);
    }
}

proof fn lemma_sseason_eps_prefix(s: Seq<SeasonScan>, j: int)
    requires
        0 <= j <= s.len(),
    ensures
        sseason_eps(s.subrange(0, j), 0) <= sseason_eps(s, 0),
    decreases s.len() - j,
{
    if j < s.len() {
        lemma_sseason_eps_prefix(s, j + 1);
        lemma_sseason_eps_push(s.subrange(0, j), s[j]);
        assert(s.subrange(0, j).push(s[j]) =~= s.subrange(0, j + 1));
    } else {
        assert(s.subrange(0, j) =~= s);
    }
}

proof fn lemma_insert_sseason_decomp(s: Seq<SeasonScan>, x: SeasonScan, p: int)
    requires
        0 <= p <= s.len(),
        forall|t: int| p <= t < s.len() ==> (#[trigger] s[t]).number > x.number,
        p > 0 ==> s[p - 1].number <= x.number,
    ensures
        insert_sseason(s, x) == s.subrange(0, p) + seq![x] + s.subrange(p, s.len() as int),
    decreases s.len(),
{
    if s.len() == 0 {
        assert(insert_sseason(s, x) =~= s.subrange(0, p) + seq![x] + s.subrange(
            p,
            s.len() as int,
        ));
    } else if s.last().number <= x.number {
        assert(p == s.len());
        assert(insert_sseason(s, x) =~= s.subrange(0, p) + seq![x] + s.subrange(
            p,
            s.len() as int,
        ));
    } else {
        lemma_insert_sseason_decomp(s.drop_last(), x, p);
        assert(s.drop_last().subrange(0, p) =~= s.subrange(0, p));
        assert(s.drop_last().subrange(p, s.len() - 1) =~= s.subrange(p, s.len() - 1));
        assert(insert_sseason(s, x) =~= s.subrange(0, p) + seq![x] + s.subrange(
            p,
            s.len() as int,
        ));
    }
}

/// Sorts season records ascending by number, stably.
fn sort_seasons_vec(v: &mut Vec<Season>)
    ensures
        final(v)@.map_values(|e: Season| e@) == sort_sseasons(
            old(v)@.map_values(|e: Season| e@),
        ),
{
    let ghost orig = old(v)@.map_values(|e: Season| e@);
    let mut out: Vec<Season> = Vec::new();
    let n = v.len();
    let mut i: usize = 0;
    while i < n
        invariant
            i <= n,
            n == orig.len(),
            v@.len() == n - i,
            v@.map_values(|e: Season| e@) == orig.subrange(i as int, n as int),
            out@.map_values(|e: Season| e@) == sort_sseasons(orig.subrange(0, i as int)),
        decreases n - i,
    {
        let ghost v_pre = v@;
        let x = v.remove(0);
        proof {
            assert(v_pre.map_values(|e: Season| e@)[0] == v_pre[0]@);
            assert(x@ == orig.subrange(i as int, n as int)[0]);
            assert forall|t: int|
                0 <= t < v@.len() implies (#[trigger] v@[t])@ == orig.subrange(
                i + 1,
                n as int,
            )[t] by {
                assert(v@[t] == v_pre[t + 1]);
                assert(v_pre.map_values(|e: Season| e@)[t + 1] == v_pre[t + 1]@);
                assert(v_pre.map_values(|e: Season| e@)[t + 1] == orig.subrange(
                    i as int,
                    n as int,
                )[t + 1]);
            }
            assert(v@.map_values(|e: Season| e@) =~= orig.subrange(i + 1, n as int));
        }
        let ghost pre = out@.map_values(|e: Season| e@);
        let mut p = out.len();
        while p > 0 && out[p - 1].number > x.number
            invariant
                p <= out@.len(),
                pre == out@.map_values(|e: Season| e@),
                forall|t: int| p <= t < pre.len() ==> (#[trigger] pre[t]).number > x@.number,
            decreases p,
        {
            p -= 1;
        }
        proof {
            lemma_insert_sseason_decomp(pre, x@, p as int);
        }
        out.insert(p, x);
        proof {
            assert(out@.map_values(|e: Season| e@) =~= pre.subrange(0, p as int) + seq![x@]
                + pre.subrange(p as int, pre.len() as int));
            assert(orig.subrange(0, i + 1).drop_last() =~= orig.subrange(0, i as int));
            assert(orig.subrange(0, i + 1).last() == orig[i as int]);
        }
        i += 1;
    }
    proof {
        assert(orig.subrange(0, n as int) =~= orig);
        assert(orig.subrange(n as int, n as int) =~= Seq::<SeasonScan>::empty());
    }
    *v = out;
}

/// Scans one show directory into a show record: loose videos become
/// flat episodes, season folders with videos become sorted seasons,
/// special folders feed the specials, unknown folders with videos feed
/// the flat episodes; a directory with no videos at all yields nothing.
pub fn scan_show_dir(tree: &DirTree) -> (r: Option<Show>)
    requires
        scan_total(*tree) <= u32::MAX,
    ensures
        r is None <==> scan_total(*tree) == 0,
        r is Some ==> {
            let m = scanned_show(*tree);
            let show = r->0;
            &&& show.id@ == spec_make_show_id(tree.name@)
            &&& show.title@ == spec_make_show_title(tree.name@)
            &&& show.path == tree.path
            &&& show.episodes@ == m.episodes
            &&& show.seasons@.map_values(|e: Season| e@) == m.seasons
            &&& show.specials@ == m.specials
            &&& show.total_episodes == Some(scan_total(*tree) as u32)
            &&& show.cover_path is None
        },
{
    let ghost folded = scan_fold(*tree, tree.subdirs@.len() as int);
    let mut episodes = collect_episodes_from_dir(tree, &None);
    let mut seasons: Vec<Season> = Vec::new();
    let mut specials: Vec<Episode> = Vec::new();
    let nsub = tree.subdirs.len();
    let mut k: usize = 0;
    while k < nsub
        invariant
            k <= nsub,
            nsub == tree.subdirs@.len(),
            episodes@ == scan_fold(*tree, k as int).episodes,
            seasons@.map_values(|e: Season| e@) == scan_fold(*tree, k as int).seasons,
            specials@ == scan_fold(*tree, k as int).specials,
        decreases nsub - k,
    {
        let ghost acc = scan_fold(*tree, k as int);
        let sub = &tree.subdirs[k];
        proof {
            assert(scan_fold(*tree, k + 1) == scan_step(acc, tree.subdirs@[k as int]));
        }
        let rel = Some(sub.name.clone());
        let cat = crate::batch::categorize_folder(sub.name.as_str());
        match cat {
            FolderCategory::Season(num) => {
                let eps = collect_episodes_from_dir(sub, &rel);
                if eps.len() > 0 {
                    let ghost pre = seasons@.map_values(|e: Season| e@);
                    seasons.push(
                        Season {
                            number: num,
                            folder_name: sub.name.clone(),
                            path: sub.path.clone(),
                            episodes: eps,
                        },
                    );
                    proof {
                        assert(seasons@.map_values(|e: Season| e@) =~= pre.push(
                            SeasonScan {
                                number: num,
                                folder_name: sub.name@,
                                path: sub.path@,
                                episodes: spec_collect_episodes(
                                    tree.subdirs@[k as int],
                                    Some(sub.name),
                                ),
                            },
                        ));
                    }
                }
            },
            FolderCategory::Unknown => {
                let mut eps = collect_episodes_from_dir(sub, &rel);
                if eps.len() > 0 {
                    episodes.append(&mut eps);
                }
            },
            _ => {
                let mut eps = collect_episodes_from_dir(sub, &rel);
                specials.append(&mut eps);
            },
        }
        k += 1;
    }
    sort_seasons_vec(&mut seasons);
    proof {
        lemma_sort_sseasons_sum(folded.seasons);
    }
    let ghost sorted = sort_sseasons(folded.seasons);
    let mut eps_total: usize = 0;
    let ns = seasons.len();
    let mut j: usize = 0;
    while j < ns
        invariant
            j <= ns,
            ns == seasons@.len(),
            seasons@.map_values(|e: Season| e@) == sorted,
            eps_total == sseason_eps(sorted.subrange(0, j as int), 0),
            sseason_eps(sorted, 0) + folded.episodes.len() + folded.specials.len() <= u32::MAX,
        decreases ns - j,
    {
        proof {
            lemma_sseason_eps_prefix(sorted, j + 1);
            lemma_sseason_eps_push(sorted.subrange(0, j as int), sorted[j as int]);
            assert(sorted.subrange(0, j as int).push(sorted[j as int]) =~= sorted.subrange(
                0,
                j + 1,
            ));
            assert(sorted[j as int].episodes.len() == seasons@[j as int].episodes@.len());
        }
        eps_total = eps_total + seasons[j].episodes.len();
        j += 1;
    }
    proof {
        assert(sorted.subrange(0, ns as int) =~= sorted);
    }
    let total = episodes.len() + eps_total + specials.len();
    if total == 0 {
        proof {
            assert(scan_total(*tree) == 0);
        }
        return None;
    }
    let id = make_show_id(tree.name.as_str());
    let title = make_show_title(tree.name.as_str());
    let show = Show {
        id,
        title,
        path: tree.path.clone(),
        total_episodes: Some(total as u32),
        episodes,
        seasons,
        specials,
        cover_path: None,
    };
    Some(show)
}

/// Fills in a show's total and drops it when it owns no episodes.
pub fn finalize_show(show: Show) -> (r: Option<Show>)
    requires
        crate::models::spec_episode_count(show) <= u32::MAX,
    ensures
        r is None <==> crate::models::spec_episode_count(show) == 0,
        r is Some ==> {
            let out = r->0;
            &&& out.id == show.id
            &&& out.title == show.title
            &&& out.path == show.path
            &&& out.episodes == show.episodes
            &&& out.seasons == show.seasons
            &&& out.specials == show.specials
            &&& out.cover_path == show.cover_path
            &&& out.total_episodes == Some(crate::models::spec_episode_count(show) as u32)
        },
{
    let total = show.episode_count();
    if total == 0 {
        return None;
    }
    let mut show = show;
    show.total_episodes = Some(total as u32);
    Some(show)
}

// ---------------------------------------------------------------------------
// Scanning a media directory
// ---------------------------------------------------------------------------

/// Position of the last dot in a name, scanning down from `j`.
pub open spec fn rfind_dot(s: Seq<char>, j: int) -> Option<int>
    decreases j + 1,
    when j < s.len()
{
    if j < 0 {
        None
    } else if s[j] == '.' {
        Some(j)
    } else {
        rfind_dot(s, j - 1)
    }
}

/// A filename with its extension stripped: everything before the last
/// dot, or the whole name when it has none.
pub open spec fn strip_ext(f: Seq<char>) -> Seq<char> {
    match rfind_dot(f, f.len() - 1) {
        Some(p) => f.subrange(0, p),
        None => f,
    }
}

/// The one-episode show a loose video file in a media directory
/// becomes.
pub open spec fn loose_show_model(media_path: String, f: String) -> ShowModel {
    let base = strip_ext(f@);
    ShowModel {
        id: spec_make_show_id(base),
        title: spec_make_show_title(base),
        path: media_path@,
        total: Some(1u32),
        episodes: seq![
            Episode {
                number: match spec_parse_episode(f@) {
                    Some(n) => n,
                    None => 1,
                },
                filename: f,
                watched: false,
                last_position: 0,
                relative_path: None,
            },
        ],
        seasons: Seq::empty(),
        specials: Seq::empty(),
        cover: None,
    }
}

/// The show record a scanned show directory becomes.
pub open spec fn dir_show_model(t: DirTree) -> ShowModel {
    let m = scanned_show(t);
    ShowModel {
        id: spec_make_show_id(t.name@),
        title: spec_make_show_title(t.name@),
        path: t.path@,
        total: Some(scan_total(t) as u32),
        episodes: m.episodes,
        seasons: m.seasons,
        specials: m.specials,
        cover: None,
    }
}

/// The shows of the first `k` subdirectories, skipping empty ones.
pub open spec fn media_dir_shows(t: DirTree, k: int) -> Seq<ShowModel>
    decreases k,
    when 0 <= k <= t.subdirs@.len()
{
    if k <= 0 {
        Seq::empty()
    } else {
        media_dir_shows(t, k - 1) + (if scan_total(t.subdirs@[k - 1]) == 0 {
            Seq::<ShowModel>::empty()
        } else {
            seq![dir_show_model(t.subdirs@[k - 1])]
        })
    }
}

/// The one-episode shows of the first `i` loose files, video files
/// only.
pub open spec fn loose_models(path: String, files: Seq<String>, i: int) -> Seq<ShowModel>
    decreases i,
    when 0 <= i <= files.len()
{
    if i <= 0 {
        Seq::empty()
    } else {
        loose_models(path, files, i - 1) + (if spec_is_video_file(files[i - 1]@) {
            seq![loose_show_model(path, files[i - 1])]
        } else {
            Seq::<ShowModel>::empty()
        })
    }
}

/// Stable insertion of a show into a list sorted ascending by
/// case-folded title.
pub open spec fn insert_show(sorted: Seq<ShowModel>, x: ShowModel) -> Seq<ShowModel>
    decreases sorted.len(),
{
    if sorted.len() == 0 {
        seq![x]
    } else if !lex_lt(lower_seq(x.title), lower_seq(sorted.last().title)) {
        sorted.push(x)
    } else {
        insert_show(sorted.drop_last(), x).push(sorted.last())
    }
}

pub open spec fn sort_shows(s: Seq<ShowModel>) -> Seq<ShowModel>
    decreases s.len(),
{
    if s.len() == 0 {
        Seq::empty()
    } else {
        insert_show(sort_shows(s.drop_last()), s.last())
    }
}

/// The scan of one media directory: every subdirectory with videos
/// becomes a show, every loose video file a one-episode show, sorted
/// ascending by case-folded title.
pub open spec fn spec_scan_media(t: DirTree) -> Seq<ShowModel> {
    sort_shows(
        media_dir_shows(t, t.subdirs@.len() as int) + loose_models(
            crate::batch::tree_path(t),
            t.files@,
            t.files@.len() as int,
        ),
    )
}

proof fn lemma_insert_show_decomp(s: Seq<ShowModel>, x: ShowModel, p: int)
    requires
        0 <= p <= s.len(),
        forall|t: int|
            p <= t < s.len() ==> lex_lt(lower_seq(x.title), lower_seq((#[trigger] s[t]).title)),
        p > 0 ==> !lex_lt(lower_seq(x.title), lower_seq(s[p - 1].title)),
    ensures
        insert_show(s, x) == s.subrange(0, p) + seq![x] + s.subrange(p, s.len() as int),
    decreases s.len(),
{
    if s.len() == 0 {
        assert(insert_show(s, x) =~= s.subrange(0, p) + seq![x] + s.subrange(p, s.len() as int));
    } else if !lex_lt(lower_seq(x.title), lower_seq(s.last().title)) {
        assert(p == s.len());
        assert(insert_show(s, x) =~= s.subrange(0, p) + seq![x] + s.subrange(p, s.len() as int));
    } else {
        lemma_insert_show_decomp(s.drop_last(), x, p);
        assert(s.drop_last().subrange(0, p) =~= s.subrange(0, p));
        assert(s.drop_last().subrange(p, s.len() - 1) =~= s.subrange(p, s.len() - 1));
        assert(insert_show(s, x) =~= s.subrange(0, p) + seq![x] + s.subrange(p, s.len() as int));
    }
}

/// The key sorts strictly before the show's case-folded title.
fn key_before_title(key: &Vec<char>, s: &Show) -> (r: bool)
    ensures
        r == lex_lt(key@, lower_seq(s.title@)),
{
    let tp = to_chars(s.title.as_str());
    let pkey = lower_vec(&tp);
    lex_lt_ex(key, &pkey)
}

/// Sorts shows ascending by case-folded title, stably.
fn sort_shows_vec(v: &mut Vec<Show>)
    ensures
        final(v)@.map_values(|e: Show| e@) == sort_shows(old(v)@.map_values(|e: Show| e@)),
{
    let ghost orig = old(v)@.map_values(|e: Show| e@);
    let mut out: Vec<Show> = Vec::new();
    let n = v.len();
    let mut i: usize = 0;
    while i < n
        invariant
            i <= n,
            n == orig.len(),
            v@.len() == n - i,
            v@.map_values(|e: Show| e@) == orig.subrange(i as int, n as int),
            out@.map_values(|e: Show| e@) == sort_shows(orig.subrange(0, i as int)),
        decreases n - i,
    {
        let ghost v_pre = v@;
        let x = v.remove(0);
        proof {
            assert(v_pre.map_values(|e: Show| e@)[0] == v_pre[0]@);
            assert(x@ == orig.subrange(i as int, n as int)[0]);
            assert forall|t: int|
                0 <= t < v@.len() implies (#[trigger] v@[t])@ == orig.subrange(i + 1, n as int)[t]
                by {
                assert(v@[t] == v_pre[t + 1]);
                assert(v_pre.map_values(|e: Show| e@)[t + 1] == v_pre[t + 1]@);
                assert(v_pre.map_values(|e: Show| e@)[t + 1] == orig.subrange(
                    i as int,
                    n as int,
                )[t + 1]);
            }
            assert(v@.map_values(|e: Show| e@) =~= orig.subrange(i + 1, n as int));
        }
        let tx = to_chars(x.title.as_str());
        let xkey = lower_vec(&tx);
        let ghost pre = out@.map_values(|e: Show| e@);
        let mut p = out.len();
        while p > 0 && key_before_title(&xkey, &out[p - 1])
            invariant
                p <= out@.len(),
                xkey@ == lower_seq(x.title@),
                pre == out@.map_values(|e: Show| e@),
                forall|t: int|
                    p <= t < pre.len() ==> lex_lt(
                        lower_seq(x@.title),
                        lower_seq((#[trigger] pre[t]).title),
                    ),
            decreases p,
        {
            p -= 1;
        }
        proof {
            lemma_insert_show_decomp(pre, x@, p as int);
        }
        out.insert(p, x);
        proof {
            assert(out@.map_values(|e: Show| e@) =~= pre.subrange(0, p as int) + seq![x@]
                + pre.subrange(p as int, pre.len() as int));
            assert(orig.subrange(0, i + 1).drop_last() =~= orig.subrange(0, i as int));
            assert(orig.subrange(0, i + 1).last() == orig[i as int]);
        }
        i += 1;
    }
    proof {
        assert(orig.subrange(0, n as int) =~= orig);
        assert(orig.subrange(n as int, n as int) =~= Seq::<ShowModel>::empty());
    }
    *v = out;
}

/// Scans one media directory into show records: one per subdirectory
/// with videos, one per loose video file, sorted ascending by
/// case-folded title.
pub fn scan_media_dir(tree: &DirTree) -> (r: Vec<Show>)
    requires
        forall|k: int|
            0 <= k < tree.subdirs@.len() ==> scan_total(#[trigger] tree.subdirs@[k]) <= u32::MAX,
    ensures
        r@.map_values(|e: Show| e@) == spec_scan_media(*tree),
{
    let mut shows: Vec<Show> = Vec::new();
    let nsub = tree.subdirs.len();
    let mut k: usize = 0;
    while k < nsub
        invariant
            k <= nsub,
            nsub == tree.subdirs@.len(),
            forall|t: int|
                0 <= t < tree.subdirs@.len() ==> scan_total(#[trigger] tree.subdirs@[t])
                    <= u32::MAX,
            shows@.map_values(|e: Show| e@) == media_dir_shows(*tree, k as int),
        decreases nsub - k,
    {
        let ghost pre = shows@.map_values(|e: Show| e@);
        if let Some(show) = scan_show_dir(&tree.subdirs[k]) {
            proof {
                assert(show@ =~~= dir_show_model(tree.subdirs@[k as int]));
            }
            shows.push(show);
            proof {
                assert(shows@.map_values(|e: Show| e@) =~= pre + seq![
                    dir_show_model(tree.subdirs@[k as int]),
                ]);
            }
        } else {
            proof {
                assert(media_dir_shows(*tree, k + 1) =~= pre);
            }
        }
        k += 1;
    }
    let nf = tree.files.len();
    let mut i: usize = 0;
    while i < nf
        invariant
            i <= nf,
            nf == tree.files@.len(),
            shows@.map_values(|e: Show| e@) == media_dir_shows(
                *tree,
                tree.subdirs@.len() as int,
            ) + loose_models(crate::batch::tree_path(*tree), tree.files@, i as int),
        decreases nf - i,
    {
        let ghost pre = shows@.map_values(|e: Show| e@);
        if is_video_file(tree.files[i].as_str()) {
            let f = &tree.files[i];
            let v = to_chars(f.as_str());
            let n = v.len();
            let mut j = n;
            while j > 0 && v[j - 1] != '.'
                invariant
                    j <= n,
                    n == v@.len(),
                    rfind_dot(v@, n - 1) == rfind_dot(v@, j - 1),
                decreases j,
            {
                j -= 1;
                proof {
                    assert(rfind_dot(v@, j as int) == rfind_dot(v@, j - 1));
                }
            }
            let mut base: Vec<char> = Vec::new();
            if j > 0 {
                let mut t: usize = 0;
                while t < j - 1
                    invariant
                        t <= j - 1,
                        j <= v@.len(),
                        j >= 1,
                        base@ == v@.subrange(0, t as int),
                    decreases j - t,
                {
                    base.push(v[t]);
                    t += 1;
                    proof {
                        assert(base@ =~= v@.subrange(0, t as int));
                    }
                }
                proof {
                    assert(rfind_dot(v@, n - 1) == Some(j - 1));
                    assert(base@ == strip_ext(f@));
                }
            } else {
                let mut t: usize = 0;
                while t < n
                    invariant
                        t <= n,
                        n == v@.len(),
                        base@ == v@.subrange(0, t as int),
                    decreases n - t,
                {
                    base.push(v[t]);
                    t += 1;
                    proof {
                        assert(base@ =~= v@.subrange(0, t as int));
                    }
                }
                proof {
                    assert(rfind_dot(v@, n - 1) is None);
                    assert(v@.subrange(0, n as int) =~= v@);
                    assert(base@ == strip_ext(f@));
                }
            }
            let base_s = crate::text::chars_to_string(&base);
            let id = make_show_id(base_s.as_str());
            let title = make_show_title(base_s.as_str());
            let ep_num = match parse_episode_number(f.as_str()) {
                Some(x) => x,
                None => 1,
            };
            let episode = Episode {
                number: ep_num,
                filename: f.clone(),
                watched: false,
                last_position: 0,
                relative_path: None,
            };
            let mut eps: Vec<Episode> = Vec::new();
            let ghost epg = episode;
            eps.push(episode);
            proof {
                assert(eps@ =~= seq![epg]);
            }
            let show = Show {
                id,
                title,
                path: tree.path.clone(),
                total_episodes: Some(1),
                episodes: eps,
                seasons: Vec::new(),
                specials: Vec::new(),
                cover_path: None,
            };
            proof {
                assert(show@.seasons =~= Seq::<SeasonScan>::empty());
                assert(show@ =~~= loose_show_model(
                    crate::batch::tree_path(*tree),
                    tree.files@[i as int],
                ));
            }
            shows.push(show);
            proof {
                assert(shows@.map_values(|e: Show| e@) =~= pre + seq![
                    loose_show_model(crate::batch::tree_path(*tree), tree.files@[i as int]),
                ]);
            }
        } else {
            proof {
                assert(loose_models(crate::batch::tree_path(*tree), tree.files@, i + 1)
                    =~= loose_models(crate::batch::tree_path(*tree), tree.files@, i as int));
            }
        }
        i += 1;
    }
    sort_shows_vec(&mut shows);
    shows
}

/// Whether an earlier show in the list carries the same identifier.
pub open spec fn has_earlier_id(s: Seq<ShowModel>, i: int) -> bool {
    exists|j: int| 0 <= j < i && (#[trigger] s[j]).id == s[i].id
}

/// The list with later duplicates by identifier dropped, keeping the
/// first of each.
pub open spec fn dedup_upto(s: Seq<ShowModel>, i: int) -> Seq<ShowModel>
    decreases i,
    when 0 <= i <= s.len()
{
    if i <= 0 {
        Seq::empty()
    } else {
        dedup_upto(s, i - 1) + (if has_earlier_id(s, i - 1) {
            Seq::<ShowModel>::empty()
        } else {
            seq![s[i - 1]]
        })
    }
}

/// The shows of every media directory concatenated, in order.
pub open spec fn all_media_shows(dirs: Seq<DirTree>, i: int) -> Seq<ShowModel>
    decreases i,
    when 0 <= i <= dirs.len()
{
    if i <= 0 {
        Seq::empty()
    } else {
        all_media_shows(dirs, i - 1) + spec_scan_media(dirs[i - 1])
    }
}

/// The scan of all media directories: each scanned in turn, duplicates
/// by identifier dropped keeping the first seen, and the result sorted
/// ascending by case-folded title.
pub open spec fn spec_scan_all(dirs: Seq<DirTree>) -> Seq<ShowModel> {
    let all = all_media_shows(dirs, dirs.len() as int);
    sort_shows(dedup_upto(all, all.len() as int))
}

/// Scans every configured media directory, drops duplicate shows by
/// identifier keeping the first seen, and sorts the result by
/// case-folded title.
pub fn scan_all_media_dirs(dirs: &Vec<DirTree>) -> (r: Vec<Show>)
    requires
        forall|d: int, k: int|
            0 <= d < dirs@.len() && 0 <= k < dirs@[d].subdirs@.len() ==> scan_total(
                #[trigger] dirs@[d].subdirs@[k],
            ) <= u32::MAX,
    ensures
        r@.map_values(|e: Show| e@) == spec_scan_all(dirs@),
{
    let mut all: Vec<Show> = Vec::new();
    let nd = dirs.len();
    let mut d: usize = 0;
    while d < nd
        invariant
            d <= nd,
            nd == dirs@.len(),
            forall|t: int, k: int|
                0 <= t < dirs@.len() && 0 <= k < dirs@[t].subdirs@.len() ==> scan_total(
                    #[trigger] dirs@[t].subdirs@[k],
                ) <= u32::MAX,
            all@.map_values(|e: Show| e@) == all_media_shows(dirs@, d as int),
        decreases nd - d,
    {
        let ghost pre = all@.map_values(|e: Show| e@);
        let mut shows = scan_media_dir(&dirs[d]);
        let ghost add = shows@.map_values(|e: Show| e@);
        all.append(&mut shows);
        proof {
            assert(all@.map_values(|e: Show| e@) =~= pre + add);
        }
        d += 1;
    }
    let ghost allm = all@.map_values(|e: Show| e@);
    let mut kept: Vec<Show> = Vec::new();
    let n = all.len();
    let mut i: usize = 0;
    while i < n
        invariant
            i <= n,
            n == all@.len(),
            allm == all@.map_values(|e: Show| e@),
            kept@.map_values(|e: Show| e@) == dedup_upto(allm, i as int),
        decreases n - i,
    {
        let ghost pre = kept@.map_values(|e: Show| e@);
        let mut dup = false;
        let mut j: usize = 0;
        while j < i
            invariant
                j <= i,
                i < n,
                n == all@.len(),
                allm == all@.map_values(|e: Show| e@),
                dup == exists|t: int| 0 <= t < j && (#[trigger] allm[t]).id == allm[i as int].id,
            decreases i - j,
        {
            if crate::text::str_eq(all[j].id.as_str(), all[i].id.as_str()) {
                dup = true;
                proof {
                    assert(allm[j as int] == all@[j as int]@);
                    assert(allm[j as int].id == allm[i as int].id);
                }
            } else {
                proof {
                    assert(allm[j as int] == all@[j as int]@);
                    assert(allm[i as int] == all@[i as int]@);
                    assert(allm[j as int].id != allm[i as int].id);
                }
            }
            j += 1;
        }
        if !dup {
            kept.push(all[i].duplicate_show());
            proof {
                assert(kept@.map_values(|e: Show| e@) =~= pre + seq![allm[i as int]]);
            }
        } else {
            proof {
                assert(dedup_upto(allm, i + 1) =~= pre);
            }
        }
        i += 1;
    }
    sort_shows_vec(&mut kept);
    kept
}

} // verus!
