//! Update matcher: decides, per tracked series, which freshly seen
//! releases are genuinely new, acceptable episodes — dropping episodes
//! already owned, episodes below the watermark, titles failing the
//! configured group or quality filter, and titles already downloading —
//! and keeps the best-quality candidate per episode.

use vstd::prelude::*;

use crate::filename::{
    quality_scan_from, spec_parse_episode, spec_release_group, parse_episode_number,
    parse_quality, parse_release_group,
};
use crate::library::{find_show_idx, Library};
use crate::models::{find_ep_idx, find_episode_index, Show, TrackedSeries};
use crate::nyaa::NyaaResult;
use crate::text::{contains_seq, lower_seq, lower_vec, seq_contains, str_eq, to_chars};

verus! {

/// One new episode worth fetching, with its source identifier.
#[derive(Debug, Clone)]
pub struct UpdateResult {
    pub series_title: String,
    pub episode_number: u32,
    pub magnet: String,
    pub title: String,
}

/// Basic facts about a torrent already in the download client.
#[derive(Debug, Clone)]
pub struct ExistingTorrent {
    pub hash: String,
    pub name: String,
}

/// A candidate release while the matcher is grouping by episode.
pub ghost struct CandModel {
    pub ep: u32,
    pub score: int,
    pub magnet: Seq<char>,
    pub title: Seq<char>,
}

pub struct Cand {
    pub ep: u32,
    pub score: i32,
    pub magnet: String,
    pub title: String,
}

impl View for Cand {
    type V = CandModel;

    open spec fn view(&self) -> CandModel {
        CandModel {
            ep: self.ep,
            score: self.score as int,
            magnet: self.magnet@,
            title: self.title@,
        }
    }
}

// ---------------------------------------------------------------------------
// Acceptance of a single candidate
// ---------------------------------------------------------------------------

/// The library show title and the series title mention each other,
/// under case folding.
pub open spec fn related_show(s: Show, title: Seq<char>) -> bool {
    contains_seq(lower_seq(s.title@), lower_seq(title)) || contains_seq(
        lower_seq(title),
        lower_seq(s.title@),
    )
}

/// The first show whose title is related to the series title, from `k`
/// on.
pub open spec fn find_related_idx(shows: Seq<Show>, k: int, title: Seq<char>) -> Option<int>
    decreases shows.len() - k,
    when 0 <= k <= shows.len()
{
    if k >= shows.len() {
        None
    } else if related_show(shows[k], title) {
        Some(k)
    } else {
        find_related_idx(shows, k + 1, title)
    }
}

/// The show the series refers to: by identifier first, else the first
/// title-related show.
pub open spec fn effective_show_idx(shows: Seq<Show>, series: TrackedSeries) -> Option<int> {
    match find_show_idx(shows, 0, series.id@) {
        Some(k) => Some(k),
        None => find_related_idx(shows, 0, series.title@),
    }
}

/// A torrent with exactly this title, under case folding, is already
/// downloading.
pub open spec fn downloading(torrents: Seq<ExistingTorrent>, title: Seq<char>) -> bool {
    exists|t: int|
        0 <= t < torrents.len() && lower_seq((#[trigger] torrents[t]).name@) == lower_seq(title)
}

/// Whether a result survives every filter, and the quality score it
/// carries if it does: full resolution earns ten, the middle tier five.
pub open spec fn accept_result(
    shows: Seq<Show>,
    series: TrackedSeries,
    torrents: Seq<ExistingTorrent>,
    r: NyaaResult,
) -> Option<(u32, int)> {
    match spec_parse_episode(r.title@) {
        None => None,
        Some(ep) => if ep < series.min_episode {
            None
        } else {
            let owned_or_downloading = match effective_show_idx(shows, series) {
                Some(k) => find_ep_idx(shows[k].episodes@, 0, ep) is Some || downloading(
                    torrents,
                    r.title@,
                ),
                None => false,
            };
            if owned_or_downloading {
                None
            } else {
                let group_ok = match series.filter_group {
                    Some(g) => match spec_release_group(r.title@) {
                        Some(pg) => contains_seq(pg, g@),
                        None => false,
                    },
                    None => true,
                };
                if !group_ok {
                    None
                } else {
                    let q = quality_scan_from(r.title@, 0);
                    let quality_ok = match series.filter_quality {
                        Some(fq) => match q {
                            Some(pq) => pq == lower_seq(fq@),
                            None => false,
                        },
                        None => true,
                    };
                    if !quality_ok {
                        None
                    } else {
                        let score: int = if q == Some("1080p"@) {
                            10
                        } else if q == Some("720p"@) {
                            5
                        } else {
                            0
                        };
                        Some((ep, score))
                    }
                }
            }
        },
    }
}

// ---------------------------------------------------------------------------
// Grouping by episode
// ---------------------------------------------------------------------------

/// The first candidate already recorded for an episode, from `i` on.
pub open spec fn find_cand_idx(cs: Seq<CandModel>, i: int, ep: u32) -> Option<int>
    decreases cs.len() - i,
    when 0 <= i <= cs.len()
{
    if i >= cs.len() {
        None
    } else if cs[i].ep == ep {
        Some(i)
    } else {
        find_cand_idx(cs, i + 1, ep)
    }
}

/// One result folded into the candidates: rejected results change
/// nothing; an episode seen before keeps its place and is replaced only
/// by a strictly better score (ties keep the first seen, which favors
/// better-seeded releases in seeder-sorted input); a new episode is
/// appended.
pub open spec fn cand_step(
    cs: Seq<CandModel>,
    shows: Seq<Show>,
    series: TrackedSeries,
    torrents: Seq<ExistingTorrent>,
    r: NyaaResult,
) -> Seq<CandModel> {
    match accept_result(shows, series, torrents, r) {
        None => cs,
        Some((ep, score)) => {
            let c = CandModel { ep, score, magnet: r.magnet_link@, title: r.title@ };
            match find_cand_idx(cs, 0, ep) {
                Some(x) => if score > cs[x].score {
                    cs.update(x, c)
                } else {
                    cs
                },
                None => cs.push(c),
            }
        },
    }
}

/// The candidates after the first `i` results.
pub open spec fn cands_from(
    shows: Seq<Show>,
    series: TrackedSeries,
    torrents: Seq<ExistingTorrent>,
    results: Seq<NyaaResult>,
    i: int,
) -> Seq<CandModel>
    decreases i,
    when 0 <= i <= results.len()
{
    if i <= 0 {
        Seq::empty()
    } else {
        cand_step(
            cands_from(shows, series, torrents, results, i - 1),
            shows,
            series,
            torrents,
            results[i - 1],
        )
    }
}

/// The update records the matcher owes for a series: one per distinct
/// new episode, in first-seen episode order.
pub open spec fn spec_series_updates(
    lib: Library,
    series: TrackedSeries,
    results: Seq<NyaaResult>,
    torrents: Seq<ExistingTorrent>,
) -> Seq<CandModel> {
    cands_from(lib.shows@, series, torrents, results, results.len() as int)
}

// ---------------------------------------------------------------------------
// Executable matcher
// ---------------------------------------------------------------------------

fn find_effective_show_index(shows: &Vec<Show>, series: &TrackedSeries) -> (r: Option<usize>)
    ensures
        r is Some <==> effective_show_idx(shows@, *series) is Some,
        r is Some ==> effective_show_idx(shows@, *series)->0 == r->0 as int && r->0 < shows@.len(),
{
    let n = shows.len();
    let mut k: usize = 0;
    while k < n
        invariant
            k <= n,
            n == shows@.len(),
            find_show_idx(shows@, 0, series.id@) == find_show_idx(shows@, k as int, series.id@),
        decreases n - k,
    {
        if str_eq(shows[k].id.as_str(), series.id.as_str()) {
            return Some(k);
        }
        k += 1;
        proof {
            assert(find_show_idx(shows@, k - 1, series.id@) == find_show_idx(
                shows@,
                k as int,
                series.id@,
            ));
        }
    }
    let lt = to_chars(series.title.as_str());
    let lseries = lower_vec(&lt);
    let mut k: usize = 0;
    while k < n
        invariant
            k <= n,
            n == shows@.len(),
            lseries@ == lower_seq(series.title@),
            find_show_idx(shows@, 0, series.id@) is None,
            find_related_idx(shows@, 0, series.title@) == find_related_idx(
                shows@,
                k as int,
                series.title@,
            ),
        decreases n - k,
    {
        let st = to_chars(shows[k].title.as_str());
        let lshow = lower_vec(&st);
        if seq_contains(&lshow, &lseries) || seq_contains(&lseries, &lshow) {
            return Some(k);
        }
        k += 1;
        proof {
            assert(find_related_idx(shows@, k - 1, series.title@) == find_related_idx(
                shows@,
                k as int,
                series.title@,
            ));
        }
    }
    None
}

fn is_downloading(torrents: &Vec<ExistingTorrent>, title: &str) -> (r: bool)
    ensures
        r == downloading(torrents@, title@),
{
    let tv = to_chars(title);
    let lt = lower_vec(&tv);
    let n = torrents.len();
    let mut k: usize = 0;
    while k < n
        invariant
            k <= n,
            n == torrents@.len(),
            lt@ == lower_seq(title@),
            forall|t: int|
                0 <= t < k ==> lower_seq((#[trigger] torrents@[t]).name@) != lower_seq(title@),
        decreases n - k,
    {
        let nv = to_chars(torrents[k].name.as_str());
        let ln = lower_vec(&nv);
        if ln.len() == lt.len() && crate::text::cs_lit_at(&ln, 0, &lt) {
            proof {
                assert(ln@ =~= lt@);
            }
            return true;
        }
        proof {
            if lower_seq(torrents@[k as int].name@) == lower_seq(title@) {
                assert(forall|t: int| 0 <= t < lt@.len() ==> ln@[0 + t] == lt@[t]);
            }
        }
        k += 1;
    }
    false
}

/// Decides whether one result survives every filter of the series.
fn accept_result_ex(
    shows: &Vec<Show>,
    series: &TrackedSeries,
    torrents: &Vec<ExistingTorrent>,
    r: &NyaaResult,
) -> (o: Option<(u32, i32)>)
    ensures
        o is Some <==> accept_result(shows@, *series, torrents@, *r) is Some,
        o is Some ==> {
            let (ep, score) = o->0;
            accept_result(shows@, *series, torrents@, *r)->0 == (ep, score as int)
        },
{
    let ep = match parse_episode_number(r.title.as_str()) {
        Some(e) => e,
        None => {
            return None;
        },
    };
    if ep < series.min_episode {
        return None;
    }
    if let Some(k) = find_effective_show_index(shows, series) {
        if find_episode_index(&shows[k].episodes, ep).is_some() {
            return None;
        }
        if is_downloading(torrents, r.title.as_str()) {
            return None;
        }
    }
    match &series.filter_group {
        Some(g) => {
            match parse_release_group(r.title.as_str()) {
                Some(pg) => {
                    let pgv = to_chars(pg.as_str());
                    let gv = to_chars(g.as_str());
                    if !seq_contains(&pgv, &gv) {
                        return None;
                    }
                },
                None => {
                    return None;
                },
            }
        },
        None => {},
    }
    let q = parse_quality(r.title.as_str());
    match &series.filter_quality {
        Some(fq) => {
            match &q {
                Some(pq) => {
                    let fqv = to_chars(fq.as_str());
                    let lfq = lower_vec(&fqv);
                    let pqv = to_chars(pq.as_str());
                    if !(pqv.len() == lfq.len() && crate::text::cs_lit_at(&pqv, 0, &lfq)) {
                        proof {
                            if quality_scan_from(r.title@, 0)->0 == lower_seq(fq@) {
                                assert(forall|t: int|
                                    0 <= t < lfq@.len() ==> pqv@[0 + t] == lfq@[t]);
                            }
                        }
                        return None;
                    }
                    proof {
                        assert(pqv@ =~= lfq@);
                    }
                },
                None => {
                    return None;
                },
            }
        },
        None => {},
    }
    let score: i32 = match &q {
        Some(pq) => {
            if str_eq(pq.as_str(), "1080p") {
                10
            } else if str_eq(pq.as_str(), "720p") {
                5
            } else {
                0
            }
        },
        None => 0,
    };
    Some((ep, score))
}

/// Checks one tracked series against freshly fetched results: drops
/// episodes already in the library or below the watermark, titles
/// failing the group or quality filter, and titles already downloading;
/// groups the rest by episode, keeping the best-quality candidate per
/// episode with ties going to the first seen. One record per distinct
/// new episode comes back, in first-seen order.
pub fn check_series_updates(
    lib: &Library,
    series: &TrackedSeries,
    results: &Vec<NyaaResult>,
    torrents: &Vec<ExistingTorrent>,
) -> (r: Vec<UpdateResult>)
    ensures
        ({
            let cs = spec_series_updates(*lib, *series, results@, torrents@);
            &&& r@.len() == cs.len()
            &&& forall|t: int|
                0 <= t < cs.len() ==> {
                    &&& (#[trigger] r@[t]).series_title@ == series.title@
                    &&& r@[t].episode_number == cs[t].ep
                    &&& r@[t].magnet@ == cs[t].magnet
                    &&& r@[t].title@ == cs[t].title
                }
        }),
{
    let mut cands: Vec<Cand> = Vec::new();
    let n = results.len();
    let mut i: usize = 0;
    while i < n
        invariant
            i <= n,
            n == results@.len(),
            cands@.map_values(|c: Cand| c@) == cands_from(
                lib.shows@,
                *series,
                torrents@,
                results@,
                i as int,
            ),
        decreases n - i,
    {
        let ghost pre = cands@.map_values(|c: Cand| c@);
        if let Some((ep, score)) = accept_result_ex(&lib.shows, series, torrents, &results[i]) {
            let m = cands.len();
            let mut x: usize = 0;
            while x < m && cands[x].ep != ep
                invariant
                    x <= m,
                    m == cands@.len(),
                    pre == cands@.map_values(|c: Cand| c@),
                    find_cand_idx(pre, 0, ep) == find_cand_idx(pre, x as int, ep),
                decreases m - x,
            {
                x += 1;
                proof {
                    assert(find_cand_idx(pre, x - 1, ep) == find_cand_idx(pre, x as int, ep));
                }
            }
            if x < m {
                proof {
                    assert(find_cand_idx(pre, x as int, ep) == Some(x as int));
                }
                if score > cands[x].score {
                    let c = Cand {
                        ep,
                        score,
                        magnet: results[i].magnet_link.clone(),
                        title: results[i].title.clone(),
                    };
                    cands.set(x, c);
                    proof {
                        assert(cands@.map_values(|c: Cand| c@) =~= pre.update(
                            x as int,
                            CandModel {
                                ep,
                                score: score as int,
                                magnet: results@[i as int].magnet_link@,
                                title: results@[i as int].title@,
                            },
                        ));
                    }
                }
            } else {
                proof {
                    assert(find_cand_idx(pre, x as int, ep) is None);
                }
                let c = Cand {
                    ep,
                    score,
                    magnet: results[i].magnet_link.clone(),
                    title: results[i].title.clone(),
                };
                cands.push(c);
                proof {
                    assert(cands@.map_values(|c: Cand| c@) =~= pre.push(
                        CandModel {
                            ep,
                            score: score as int,
                            magnet: results@[i as int].magnet_link@,
                            title: results@[i as int].title@,
                        },
                    ));
                }
            }
        }
        i += 1;
    }
    let mut out: Vec<UpdateResult> = Vec::new();
    let m = cands.len();
    let ghost cs = cands@.map_values(|c: Cand| c@);
    let mut x: usize = 0;
    while x < m
        invariant
            x <= m,
            m == cands@.len(),
            cs == cands@.map_values(|c: Cand| c@),
            out@.len() == x,
            forall|t: int|
                0 <= t < x ==> {
                    &&& (#[trigger] out@[t]).series_title@ == series.title@
                    &&& out@[t].episode_number == cs[t].ep
                    &&& out@[t].magnet@ == cs[t].magnet
                    &&& out@[t].title@ == cs[t].title
                },
        decreases m - x,
    {
        out.push(
            UpdateResult {
                series_title: series.title.clone(),
                episode_number: cands[x].ep,
                magnet: cands[x].magnet.clone(),
                title: cands[x].title.clone(),
            },
        );
        x += 1;
    }
    out
}

} // verus!
