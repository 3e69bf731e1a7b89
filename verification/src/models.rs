//! Library data model: shows with flat, seasonal and special episodes,
//! tracked series, and archived shows.

use vstd::prelude::*;

verus! {

/// A show in the library.
#[derive(Debug, Clone)]
pub struct Show {
    pub id: String,
    pub title: String,
    pub path: String,
    pub total_episodes: Option<u32>,
    /// Episodes directly in the show folder, for non-seasonal shows.
    pub episodes: Vec<Episode>,
    /// Seasonal organization, for batch downloads with season folders.
    pub seasons: Vec<Season>,
    /// Special content, separate from the main episodes.
    pub specials: Vec<Episode>,
    pub cover_path: Option<String>,
}

/// One episode file.
#[derive(Debug, Clone)]
pub struct Episode {
    pub number: u32,
    pub filename: String,
    pub watched: bool,
    /// Last playback position in seconds, for resuming.
    pub last_position: u64,
    /// Path from the show root for episodes in subfolders.
    pub relative_path: Option<String>,
}

/// A season within a show.
#[derive(Debug, Clone)]
pub struct Season {
    pub number: u32,
    pub folder_name: String,
    pub path: String,
    pub episodes: Vec<Episode>,
}

/// A series watched for new releases.
#[derive(Debug, Clone)]
pub struct TrackedSeries {
    pub id: String,
    pub title: String,
    pub query: String,
    pub filter_group: Option<String>,
    pub filter_quality: Option<String>,
    pub min_episode: u32,
    pub season: u32,
    pub metadata_id: Option<u64>,
}

/// How a show was archived.
#[derive(Debug, Clone, Copy, PartialEq, Eq, Structural)]
pub enum ArchiveMode {
    /// Files deleted, watch history kept.
    GhostMode,
    /// Files compressed into an archive.
    Compressed,
}

/// The watch history of one archived episode.
#[derive(Debug, Clone)]
pub struct ArchivedEpisode {
    pub number: u32,
    pub watched: bool,
    pub last_position: u64,
}

/// A show taken out of the library.
#[derive(Debug, Clone)]
pub struct ArchivedShow {
    pub id: String,
    pub title: String,
    pub archived_at: String,
    pub mode: ArchiveMode,
    pub archive_file: Option<String>,
    pub watch_history: Vec<ArchivedEpisode>,
}

/// The ghost view of a season record built by the scanner.
#[verifier::ext_equal]
pub ghost struct SeasonScan {
    pub number: u32,
    pub folder_name: Seq<char>,
    pub path: Seq<char>,
    pub episodes: Seq<Episode>,
}

impl View for Season {
    type V = SeasonScan;

    open spec fn view(&self) -> SeasonScan {
        SeasonScan {
            number: self.number,
            folder_name: self.folder_name@,
            path: self.path@,
            episodes: self.episodes@,
        }
    }
}

/// The ghost view of a show record.
#[verifier::ext_equal]
pub ghost struct ShowModel {
    pub id: Seq<char>,
    pub title: Seq<char>,
    pub path: Seq<char>,
    pub total: Option<u32>,
    pub episodes: Seq<Episode>,
    pub seasons: Seq<SeasonScan>,
    pub specials: Seq<Episode>,
    pub cover: Option<String>,
}

impl View for Show {
    type V = ShowModel;

    open spec fn view(&self) -> ShowModel {
        ShowModel {
            id: self.id@,
            title: self.title@,
            path: self.path@,
            total: self.total_episodes,
            episodes: self.episodes@,
            seasons: self.seasons@.map_values(|e: Season| e@),
            specials: self.specials@,
            cover: self.cover_path,
        }
    }
}

// ---------------------------------------------------------------------------
// Episode
// ---------------------------------------------------------------------------

impl Episode {
    /// A fresh, unwatched episode.
    pub fn new(number: u32, filename: String) -> (r: Episode)
        ensures
            r.number == number,
            r.filename == filename,
            !r.watched,
            r.last_position == 0,
            r.relative_path is None,
    {
        Episode { number, filename, watched: false, last_position: 0, relative_path: None }
    }

    /// A fresh episode that lives in a subfolder of its show.
    pub fn with_relative_path(number: u32, filename: String, relative_path: String) -> (r: Episode)
        ensures
            r.number == number,
            r.filename == filename,
            !r.watched,
            r.last_position == 0,
            r.relative_path == Some(relative_path),
    {
        Episode {
            number,
            filename,
            watched: false,
            last_position: 0,
            relative_path: Some(relative_path),
        }
    }

    /// The full path of the episode file under the show root.
    pub fn full_path(&self, show_path: &String) -> (r: String)
        ensures
            r@ == match self.relative_path {
                Some(rel) => crate::batch::path_join(
                    crate::batch::path_join(show_path@, rel@),
                    self.filename@,
                ),
                None => crate::batch::path_join(show_path@, self.filename@),
            },
    {
        match &self.relative_path {
            Some(rel) => {
                let base = crate::batch::join_path(show_path, rel);
                crate::batch::join_path(&base, &self.filename)
            },
            None => crate::batch::join_path(show_path, &self.filename),
        }
    }

    /// A field-for-field copy.
    pub fn duplicate(&self) -> (r: Episode)
        ensures
            r == *self,
    {
        Episode {
            number: self.number,
            filename: self.filename.clone(),
            watched: self.watched,
            last_position: self.last_position,
            relative_path: match &self.relative_path {
                Some(s) => Some(s.clone()),
                None => None,
            },
        }
    }
}

// ---------------------------------------------------------------------------
// Counting and lookup specifications
// ---------------------------------------------------------------------------

/// Watched episodes in a flat list, from index `i` on.
pub open spec fn watched_from(eps: Seq<Episode>, i: int) -> nat
    decreases eps.len() - i,
    when 0 <= i <= eps.len()
{
    if i >= eps.len() {
        0
    } else {
        (if eps[i].watched {
            1nat
        } else {
            0nat
        }) + watched_from(eps, i + 1)
    }
}

/// Episodes across a list of seasons, from index `k` on.
pub open spec fn season_eps_from(seasons: Seq<Season>, k: int) -> nat
    decreases seasons.len() - k,
    when 0 <= k <= seasons.len()
{
    if k >= seasons.len() {
        0
    } else {
        seasons[k].episodes@.len() + season_eps_from(seasons, k + 1)
    }
}

/// Watched episodes across a list of seasons, from index `k` on.
pub open spec fn season_watched_from(seasons: Seq<Season>, k: int) -> nat
    decreases seasons.len() - k,
    when 0 <= k <= seasons.len()
{
    if k >= seasons.len() {
        0
    } else {
        watched_from(seasons[k].episodes@, 0) + season_watched_from(seasons, k + 1)
    }
}

/// Every episode a show owns: flat, seasonal and special.
pub open spec fn spec_episode_count(s: Show) -> nat {
    s.episodes@.len() + season_eps_from(s.seasons@, 0) + s.specials@.len()
}

pub open spec fn spec_watched_count(s: Show) -> nat {
    watched_from(s.episodes@, 0) + season_watched_from(s.seasons@, 0) + watched_from(
        s.specials@,
        0,
    )
}

/// Index of the first episode with the given number, from `i` on.
pub open spec fn find_ep_idx(eps: Seq<Episode>, i: int, number: u32) -> Option<int>
    decreases eps.len() - i,
    when 0 <= i <= eps.len()
{
    if i >= eps.len() {
        None
    } else if eps[i].number == number {
        Some(i)
    } else {
        find_ep_idx(eps, i + 1, number)
    }
}

/// Index of the first unwatched episode, from `i` on.
pub open spec fn find_unwatched_idx(eps: Seq<Episode>, i: int) -> Option<int>
    decreases eps.len() - i,
    when 0 <= i <= eps.len()
{
    if i >= eps.len() {
        None
    } else if !eps[i].watched {
        Some(i)
    } else {
        find_unwatched_idx(eps, i + 1)
    }
}

/// Index of the first season with the given number, from `k` on.
pub open spec fn find_season_idx(seasons: Seq<Season>, k: int, number: u32) -> Option<int>
    decreases seasons.len() - k,
    when 0 <= k <= seasons.len()
{
    if k >= seasons.len() {
        None
    } else if seasons[k].number == number {
        Some(k)
    } else {
        find_season_idx(seasons, k + 1, number)
    }
}

/// The next unwatched episode of a show: flat episodes first, then the
/// seasons in their stored order.
pub open spec fn spec_next_unwatched(s: Show) -> Option<Episode> {
    match find_unwatched_idx(s.episodes@, 0) {
        Some(i) => Some(s.episodes@[i]),
        None => next_unwatched_in_seasons(s.seasons@, 0),
    }
}

pub open spec fn next_unwatched_in_seasons(seasons: Seq<Season>, k: int) -> Option<Episode>
    decreases seasons.len() - k,
    when 0 <= k <= seasons.len()
{
    if k >= seasons.len() {
        None
    } else {
        match find_unwatched_idx(seasons[k].episodes@, 0) {
            Some(i) => Some(seasons[k].episodes@[i]),
            None => next_unwatched_in_seasons(seasons, k + 1),
        }
    }
}

/// All episodes of a show in order: flat, then seasonal, then special.
pub open spec fn flatten_seasons(seasons: Seq<Season>, k: int) -> Seq<Episode>
    decreases seasons.len() - k,
    when 0 <= k <= seasons.len()
{
    if k >= seasons.len() {
        Seq::empty()
    } else {
        seasons[k].episodes@ + flatten_seasons(seasons, k + 1)
    }
}

pub open spec fn spec_all_episodes(s: Show) -> Seq<Episode> {
    s.episodes@ + flatten_seasons(s.seasons@, 0) + s.specials@
}

// ---------------------------------------------------------------------------
// Executable episode search helpers
// ---------------------------------------------------------------------------

/// Finds the first episode with the given number.
pub fn find_episode_index(eps: &Vec<Episode>, number: u32) -> (r: Option<usize>)
    ensures
        r is Some <==> find_ep_idx(eps@, 0, number) is Some,
        r is Some ==> find_ep_idx(eps@, 0, number)->0 == r->0 as int && r->0 < eps@.len(),
{
    let n = eps.len();
    let mut i: usize = 0;
    while i < n
        invariant
            i <= n,
            n == eps@.len(),
            find_ep_idx(eps@, 0, number) == find_ep_idx(eps@, i as int, number),
        decreases n - i,
    {
        if eps[i].number == number {
            return Some(i);
        }
        i += 1;
        proof {
            assert(find_ep_idx(eps@, i - 1, number) == find_ep_idx(eps@, i as int, number));
        }
    }
    None
}

fn find_unwatched_index(eps: &Vec<Episode>) -> (r: Option<usize>)
    ensures
        r is Some <==> find_unwatched_idx(eps@, 0) is Some,
        r is Some ==> find_unwatched_idx(eps@, 0)->0 == r->0 as int && r->0 < eps@.len(),
{
    let n = eps.len();
    let mut i: usize = 0;
    while i < n
        invariant
            i <= n,
            n == eps@.len(),
            find_unwatched_idx(eps@, 0) == find_unwatched_idx(eps@, i as int),
        decreases n - i,
    {
        if !eps[i].watched {
            return Some(i);
        }
        i += 1;
        proof {
            assert(find_unwatched_idx(eps@, i - 1) == find_unwatched_idx(eps@, i as int));
        }
    }
    None
}

fn count_watched(eps: &Vec<Episode>) -> (r: usize)
    ensures
        r == watched_from(eps@, 0),
        r <= eps@.len(),
{
    let n = eps.len();
    let mut c: usize = 0;
    let mut i: usize = 0;
    while i < n
        invariant
            i <= n,
            n == eps@.len(),
            c <= i,
            c + watched_from(eps@, i as int) == watched_from(eps@, 0),
        decreases n - i,
    {
        if eps[i].watched {
            c += 1;
        }
        i += 1;
    }
    c
}

// ---------------------------------------------------------------------------
// Show
// ---------------------------------------------------------------------------

impl Show {
    /// A fresh show with no episodes.
    pub fn new(id: String, title: String, path: String) -> (r: Show)
        ensures
            r.id == id,
            r.title == title,
            r.path == path,
            r.total_episodes is None,
            r.episodes@.len() == 0,
            r.seasons@.len() == 0,
            r.specials@.len() == 0,
            r.cover_path is None,
    {
        Show {
            id,
            title,
            path,
            total_episodes: None,
            episodes: Vec::new(),
            seasons: Vec::new(),
            specials: Vec::new(),
            cover_path: None,
        }
    }

    /// The show uses seasonal organization.
    pub fn is_seasonal(&self) -> (r: bool)
        ensures
            r == (self.seasons@.len() > 0),
    {
        self.seasons.len() > 0
    }

    /// How many episodes are watched, across flat, seasonal and special
    /// content.
    pub fn watched_count(&self) -> (r: usize)
        requires
            spec_episode_count(*self) <= usize::MAX,
        ensures
            r == spec_watched_count(*self),
    {
        let flat = count_watched(&self.episodes);
        let special = count_watched(&self.specials);
        let ns = self.seasons.len();
        let mut acc: usize = 0;
        let mut k: usize = 0;
        while k < ns
            invariant
                k <= ns,
                ns == self.seasons@.len(),
                acc + season_watched_from(self.seasons@, k as int) == season_watched_from(
                    self.seasons@,
                    0,
                ),
                acc + season_eps_from(self.seasons@, k as int) <= season_eps_from(
                    self.seasons@,
                    0,
                ),
                season_eps_from(self.seasons@, 0) <= spec_episode_count(*self),
                spec_episode_count(*self) <= usize::MAX,
            decreases ns - k,
        {
            let w = count_watched(&self.seasons[k].episodes);
            proof {
                lemma_watched_le(self.seasons@[k as int].episodes@, 0);
            }
            acc = acc + w;
            k += 1;
        }
        proof {
            lemma_watched_le(self.episodes@, 0);
            lemma_watched_le(self.specials@, 0);
            lemma_season_watched_le(self.seasons@, 0);
        }
        flat + acc + special
    }

    /// How many episodes the show owns in all.
    pub fn episode_count(&self) -> (r: usize)
        requires
            spec_episode_count(*self) <= usize::MAX,
        ensures
            r == spec_episode_count(*self),
    {
        let ns = self.seasons.len();
        let mut acc: usize = 0;
        let mut k: usize = 0;
        while k < ns
            invariant
                k <= ns,
                ns == self.seasons@.len(),
                acc + season_eps_from(self.seasons@, k as int) == season_eps_from(
                    self.seasons@,
                    0,
                ),
                season_eps_from(self.seasons@, 0) <= spec_episode_count(*self),
                spec_episode_count(*self) <= usize::MAX,
            decreases ns - k,
        {
            acc = acc + self.seasons[k].episodes.len();
            k += 1;
        }
        self.episodes.len() + acc + self.specials.len()
    }

    /// The next unwatched episode: flat episodes first, then the
    /// seasons in order.
    pub fn next_unwatched(&self) -> (r: Option<&Episode>)
        ensures
            r is Some <==> spec_next_unwatched(*self) is Some,
            r is Some ==> *r->0 == spec_next_unwatched(*self)->0,
    {
        if let Some(i) = find_unwatched_index(&self.episodes) {
            return Some(&self.episodes[i]);
        }
        let ns = self.seasons.len();
        let mut k: usize = 0;
        while k < ns
            invariant
                k <= ns,
                ns == self.seasons@.len(),
                find_unwatched_idx(self.episodes@, 0) is None,
                next_unwatched_in_seasons(self.seasons@, 0) == next_unwatched_in_seasons(
                    self.seasons@,
                    k as int,
                ),
            decreases ns - k,
        {
            if let Some(i) = find_unwatched_index(&self.seasons[k].episodes) {
                return Some(&self.seasons[k].episodes[i]);
            }
            k += 1;
            proof {
                assert(next_unwatched_in_seasons(self.seasons@, k - 1)
                    == next_unwatched_in_seasons(self.seasons@, k as int));
            }
        }
        None
    }

    /// The first flat episode with the given number.
    pub fn get_episode(&self, number: u32) -> (r: Option<&Episode>)
        ensures
            r is Some <==> find_ep_idx(self.episodes@, 0, number) is Some,
            r is Some ==> *r->0 == self.episodes@[find_ep_idx(self.episodes@, 0, number)->0],
    {
        match find_episode_index(&self.episodes, number) {
            Some(i) => Some(&self.episodes[i]),
            None => None,
        }
    }

    /// The position of the first flat episode with the given number,
    /// for callers that go on to change it.
    pub fn get_episode_mut(&mut self, number: u32) -> (r: Option<usize>)
        ensures
            *final(self) == *old(self),
            r is Some <==> find_ep_idx(old(self).episodes@, 0, number) is Some,
            r is Some ==> find_ep_idx(old(self).episodes@, 0, number)->0 == r->0 as int && r->0
                < old(self).episodes@.len(),
    {
        find_episode_index(&self.episodes, number)
    }

    /// The first episode with the given number in the season with the
    /// given number.
    pub fn get_season_episode(&self, season_num: u32, episode_num: u32) -> (r: Option<&Episode>)
        ensures
            ({
                let si = find_season_idx(self.seasons@, 0, season_num);
                match si {
                    Some(k) => {
                        let ei = find_ep_idx(self.seasons@[k].episodes@, 0, episode_num);
                        (r is Some <==> ei is Some) && (r is Some ==> *r->0
                            == self.seasons@[k].episodes@[ei->0])
                    },
                    None => r is None,
                }
            }),
    {
        let ns = self.seasons.len();
        let mut k: usize = 0;
        while k < ns
            invariant
                k <= ns,
                ns == self.seasons@.len(),
                find_season_idx(self.seasons@, 0, season_num) == find_season_idx(
                    self.seasons@,
                    k as int,
                    season_num,
                ),
            decreases ns - k,
        {
            if self.seasons[k].number == season_num {
                return match find_episode_index(&self.seasons[k].episodes, episode_num) {
                    Some(i) => Some(&self.seasons[k].episodes[i]),
                    None => None,
                };
            }
            k += 1;
            proof {
                assert(find_season_idx(self.seasons@, k - 1, season_num) == find_season_idx(
                    self.seasons@,
                    k as int,
                    season_num,
                ));
            }
        }
        None
    }

    /// The positions of the first matching season and episode, for
    /// callers that go on to change the episode.
    pub fn get_season_episode_mut(&mut self, season_num: u32, episode_num: u32) -> (r: Option<
        (usize, usize),
    >)
        ensures
            *final(self) == *old(self),
            ({
                let si = find_season_idx(old(self).seasons@, 0, season_num);
                match si {
                    Some(k) => {
                        let ei = find_ep_idx(old(self).seasons@[k].episodes@, 0, episode_num);
                        (r is Some <==> ei is Some) && (r is Some ==> (r->0).0 == k && (
                        r->0).1 as int == ei->0)
                    },
                    None => r is None,
                }
            }),
    {
        let ns = self.seasons.len();
        let mut k: usize = 0;
        while k < ns
            invariant
                k <= ns,
                ns == self.seasons@.len(),
                find_season_idx(self.seasons@, 0, season_num) == find_season_idx(
                    self.seasons@,
                    k as int,
                    season_num,
                ),
            decreases ns - k,
        {
            if self.seasons[k].number == season_num {
                return match find_episode_index(&self.seasons[k].episodes, episode_num) {
                    Some(i) => Some((k, i)),
                    None => None,
                };
            }
            k += 1;
            proof {
                assert(find_season_idx(self.seasons@, k - 1, season_num) == find_season_idx(
                    self.seasons@,
                    k as int,
                    season_num,
                ));
            }
        }
        None
    }

    /// A field-for-field copy of the whole show.
    pub fn duplicate_show(&self) -> (r: Show)
        ensures
            r@ == self@,
    {
        let mut seasons: Vec<Season> = Vec::new();
        let ns = self.seasons.len();
        let mut k: usize = 0;
        while k < ns
            invariant
                k <= ns,
                ns == self.seasons@.len(),
                seasons@.len() == k,
                forall|t: int| 0 <= t < k ==> (#[trigger] seasons@[t])@ == self.seasons@[t]@,
            decreases ns - k,
        {
            let s = &self.seasons[k];
            let mut eps: Vec<Episode> = Vec::new();
            let ne = s.episodes.len();
            let mut t: usize = 0;
            while t < ne
                invariant
                    t <= ne,
                    ne == s.episodes@.len(),
                    eps@ == s.episodes@.subrange(0, t as int),
                decreases ne - t,
            {
                eps.push(s.episodes[t].duplicate());
                t += 1;
                proof {
                    assert(eps@ =~= s.episodes@.subrange(0, t as int));
                }
            }
            proof {
                assert(eps@ =~= s.episodes@);
            }
            seasons.push(
                Season {
                    number: s.number,
                    folder_name: s.folder_name.clone(),
                    path: s.path.clone(),
                    episodes: eps,
                },
            );
            k += 1;
        }
        proof {
            assert(seasons@.map_values(|e: Season| e@) =~~= self.seasons@.map_values(
                |e: Season| e@,
            ));
        }
        let mut episodes: Vec<Episode> = Vec::new();
        append_episodes(&mut episodes, &self.episodes);
        let mut specials: Vec<Episode> = Vec::new();
        append_episodes(&mut specials, &self.specials);
        proof {
            assert(episodes@ =~= self.episodes@);
            assert(specials@ =~= self.specials@);
        }
        let r = Show {
            id: self.id.clone(),
            title: self.title.clone(),
            path: self.path.clone(),
            total_episodes: self.total_episodes,
            episodes,
            seasons,
            specials,
            cover_path: match &self.cover_path {
                Some(p) => Some(p.clone()),
                None => None,
            },
        };
        proof {
            assert(r@ =~~= self@);
        }
        r
    }

    /// Every episode of the show in order: flat, seasonal, special.
    pub fn all_episodes(&self) -> (r: Vec<Episode>)
        ensures
            r@ == spec_all_episodes(*self),
    {
        let mut out: Vec<Episode> = Vec::new();
        append_episodes(&mut out, &self.episodes);
        let ns = self.seasons.len();
        let mut k: usize = 0;
        while k < ns
            invariant
                k <= ns,
                ns == self.seasons@.len(),
                out@ == self.episodes@ + flat_prefix(self.seasons@, k as int),
            decreases ns - k,
        {
            append_episodes(&mut out, &self.seasons[k].episodes);
            k += 1;
            proof {
                lemma_flat_prefix_step(self.seasons@, k - 1);
                assert(out@ =~= self.episodes@ + flat_prefix(self.seasons@, k as int));
            }
        }
        append_episodes(&mut out, &self.specials);
        proof {
            lemma_flat_prefix_full(self.seasons@, ns as int);
            assert(out@ =~= spec_all_episodes(*self));
        }
        out
    }
}

/// The seasonal episodes of the first `k` seasons, in order.
pub open spec fn flat_prefix(seasons: Seq<Season>, k: int) -> Seq<Episode>
    decreases k,
    when 0 <= k <= seasons.len()
{
    if k <= 0 {
        Seq::empty()
    } else {
        flat_prefix(seasons, k - 1) + seasons[k - 1].episodes@
    }
}

proof fn lemma_flat_prefix_step(seasons: Seq<Season>, k: int)
    requires
        0 <= k < seasons.len(),
    ensures
        flat_prefix(seasons, k + 1) == flat_prefix(seasons, k) + seasons[k].episodes@,
{
}

proof fn lemma_flat_prefix_full(seasons: Seq<Season>, k: int)
    requires
        0 <= k <= seasons.len(),
    ensures
        flat_prefix(seasons, k) + flatten_seasons(seasons, k) =~= flatten_seasons(seasons, 0),
    decreases k,
{
    if k == 0 {
        assert(flat_prefix(seasons, 0) + flatten_seasons(seasons, 0) =~= flatten_seasons(
            seasons,
            0,
        ));
    } else {
        lemma_flat_prefix_full(seasons, k - 1);
        assert(flatten_seasons(seasons, k - 1) == seasons[k - 1].episodes@ + flatten_seasons(
            seasons,
            k,
        ));
        assert(flat_prefix(seasons, k) + flatten_seasons(seasons, k) =~= flat_prefix(
            seasons,
            k - 1,
        ) + flatten_seasons(seasons, k - 1));
    }
}

/// Appends copies of all episodes of `src` to `out`.
fn append_episodes(out: &mut Vec<Episode>, src: &Vec<Episode>)
    ensures
        final(out)@ == old(out)@ + src@,
{
    let n = src.len();
    let mut i: usize = 0;
    while i < n
        invariant
            i <= n,
            n == src@.len(),
            out@ == old(out)@ + src@.subrange(0, i as int),
        decreases n - i,
    {
        out.push(src[i].duplicate());
        i += 1;
        proof {
            assert(out@ =~= old(out)@ + src@.subrange(0, i as int));
        }
    }
    proof {
        assert(final(out)@ =~= old(out)@ + src@);
    }
}

proof fn lemma_watched_le(eps: Seq<Episode>, i: int)
    requires
        0 <= i <= eps.len(),
    ensures
        watched_from(eps, i) <= eps.len() - i,
    decreases eps.len() - i,
{
    if i < eps.len() {
        lemma_watched_le(eps, i + 1);
    }
}

proof fn lemma_season_watched_le(seasons: Seq<Season>, k: int)
    requires
        0 <= k <= seasons.len(),
    ensures
        season_watched_from(seasons, k) <= season_eps_from(seasons, k),
    decreases seasons.len() - k,
{
    if k < seasons.len() {
        lemma_season_watched_le(seasons, k + 1);
        lemma_watched_le(seasons[k].episodes@, 0);
    }
}

} // verus!
