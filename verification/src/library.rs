//! The library: the owned shows, the tracked series and the archived
//! shows, with lookup and watch-state updates.

use vstd::prelude::*;

use crate::models::{
    find_ep_idx, find_episode_index, ArchivedShow, Episode, Show, TrackedSeries,
};

verus! {

/// The persisted library state.
#[derive(Debug, Clone)]
pub struct Library {
    pub shows: Vec<Show>,
    pub tracked_shows: Vec<TrackedSeries>,
    pub archived_shows: Vec<ArchivedShow>,
}

impl Default for Library {
    /// An empty library.
    fn default() -> (r: Library)
        ensures
            r.shows@.len() == 0,
            r.tracked_shows@.len() == 0,
            r.archived_shows@.len() == 0,
    {
        Library { shows: Vec::new(), tracked_shows: Vec::new(), archived_shows: Vec::new() }
    }
}

/// Index of the first show with the given identifier, from `k` on.
pub open spec fn find_show_idx(shows: Seq<Show>, k: int, id: Seq<char>) -> Option<int>
    decreases shows.len() - k,
    when 0 <= k <= shows.len()
{
    if k >= shows.len() {
        None
    } else if shows[k].id@ == id {
        Some(k)
    } else {
        find_show_idx(shows, k + 1, id)
    }
}

/// Index of the last show with the given identifier, if any; later
/// entries shadow earlier ones when watch state is carried over.
pub open spec fn find_show_last_idx(shows: Seq<Show>, id: Seq<char>) -> Option<int>
    decreases shows.len(),
{
    if shows.len() == 0 {
        None
    } else if shows.last().id@ == id {
        Some(shows.len() - 1)
    } else {
        find_show_last_idx(shows.drop_last(), id)
    }
}

/// Index of the last episode with the given number, if any.
pub open spec fn find_ep_last_idx(eps: Seq<Episode>, number: u32) -> Option<int>
    decreases eps.len(),
{
    if eps.len() == 0 {
        None
    } else if eps.last().number == number {
        Some(eps.len() - 1)
    } else {
        find_ep_last_idx(eps.drop_last(), number)
    }
}

/// One scanned episode with the watch state of its counterpart in the
/// old library carried over, when the old show has an episode of the
/// same number.
pub open spec fn carry_episode(e: Episode, old_show: Show) -> Episode {
    match find_ep_last_idx(old_show.episodes@, e.number) {
        Some(x) => Episode {
            watched: old_show.episodes@[x].watched,
            last_position: old_show.episodes@[x].last_position,
            ..e
        },
        None => e,
    }
}

/// `a` is `b` with its flat episodes replaced by `eps` and every other
/// field unchanged.
pub open spec fn show_like(a: Show, b: Show, eps: Seq<Episode>) -> bool {
    &&& a.id == b.id
    &&& a.title == b.title
    &&& a.path == b.path
    &&& a.total_episodes == b.total_episodes
    &&& a.episodes@ == eps
    &&& a.seasons == b.seasons
    &&& a.specials == b.specials
    &&& a.cover_path == b.cover_path
}

/// `out` is the scanned show `src` with watch state carried over from
/// the old library when a show of the same identifier existed.
pub open spec fn carried_show(out: Show, src: Show, old_shows: Seq<Show>) -> bool {
    match find_show_last_idx(old_shows, src.id@) {
        Some(k) => show_like(
            out,
            src,
            Seq::new(src.episodes@.len(), |i: int| carry_episode(src.episodes@[i], old_shows[k])),
        ),
        None => out == src,
    }
}

/// `out` is the scanned list with watch state carried over, show by
/// show.
pub open spec fn spec_refreshed(out: Seq<Show>, old_shows: Seq<Show>, scanned: Seq<Show>) -> bool {
    out.len() == scanned.len() && forall|i: int|
        0 <= i < scanned.len() ==> carried_show(#[trigger] out[i], scanned[i], old_shows)
}

/// Finds the index of the last show with the given identifier.
fn find_show_last_index(shows: &Vec<Show>, id: &String) -> (r: Option<usize>)
    ensures
        r is Some <==> find_show_last_idx(shows@, id@) is Some,
        r is Some ==> find_show_last_idx(shows@, id@)->0 == r->0 as int && r->0 < shows@.len(),
{
    let n = shows.len();
    let mut k = n;
    proof {
        assert(shows@.subrange(0, n as int) =~= shows@);
    }
    while k > 0
        invariant
            k <= n,
            n == shows@.len(),
            find_show_last_idx(shows@, id@) == find_show_last_idx(
                shows@.subrange(0, k as int),
                id@,
            ),
        decreases k,
    {
        if shows[k - 1].id == *id {
            proof {
                assert(shows@.subrange(0, k as int).last() == shows@[k - 1]);
            }
            return Some(k - 1);
        }
        k -= 1;
        proof {
            assert(shows@.subrange(0, k + 1).last() == shows@[k as int]);
            assert(shows@.subrange(0, k + 1).drop_last() =~= shows@.subrange(0, k as int));
        }
    }
    proof {
        assert(shows@.subrange(0, 0) =~= Seq::<Show>::empty());
    }
    None
}

/// Finds the index of the last episode with the given number.
fn find_ep_last_index(eps: &Vec<Episode>, number: u32) -> (r: Option<usize>)
    ensures
        r is Some <==> find_ep_last_idx(eps@, number) is Some,
        r is Some ==> find_ep_last_idx(eps@, number)->0 == r->0 as int && r->0 < eps@.len(),
{
    let n = eps.len();
    let mut k = n;
    proof {
        assert(eps@.subrange(0, n as int) =~= eps@);
    }
    while k > 0
        invariant
            k <= n,
            n == eps@.len(),
            find_ep_last_idx(eps@, number) == find_ep_last_idx(eps@.subrange(0, k as int), number),
        decreases k,
    {
        if eps[k - 1].number == number {
            proof {
                assert(eps@.subrange(0, k as int).last() == eps@[k - 1]);
            }
            return Some(k - 1);
        }
        k -= 1;
        proof {
            assert(eps@.subrange(0, k + 1).last() == eps@[k as int]);
            assert(eps@.subrange(0, k + 1).drop_last() =~= eps@.subrange(0, k as int));
        }
    }
    proof {
        assert(eps@.subrange(0, 0) =~= Seq::<Episode>::empty());
    }
    None
}

impl Library {
    /// Replaces the shows with a freshly scanned list, carrying the
    /// watch state of flat episodes over from shows with the same
    /// identifier; tracked series and archives are untouched.
    pub fn refresh(&mut self, scanned: Vec<Show>)
        ensures
            spec_refreshed(final(self).shows@, old(self).shows@, scanned@),
            final(self).tracked_shows == old(self).tracked_shows,
            final(self).archived_shows == old(self).archived_shows,
    {
        let ghost old_shows = self.shows@;
        let ghost scanned0 = scanned@;
        let mut scanned = scanned;
        let mut merged: Vec<Show> = Vec::new();
        let n = scanned.len();
        let mut i: usize = 0;
        while i < n
            invariant
                i <= n,
                n == scanned0.len(),
                old_shows == self.shows@,
                scanned@ == scanned0.subrange(i as int, n as int),
                merged@.len() == i,
                forall|t: int|
                    0 <= t < i ==> carried_show(#[trigger] merged@[t], scanned0[t], old_shows),
            decreases n - i,
        {
            let mut s = scanned.remove(0);
            proof {
                assert(s == scanned0[i as int]);
                assert(scanned@ =~= scanned0.subrange(i + 1, n as int));
            }
            if let Some(k) = find_show_last_index(&self.shows, &s.id) {
                let ghost eps0 = s.episodes@;
                let m = s.episodes.len();
                let mut j: usize = 0;
                while j < m
                    invariant
                        j <= m,
                        m == eps0.len(),
                        old_shows == self.shows@,
                        k < self.shows@.len(),
                        find_show_last_idx(old_shows, s.id@) == Some(k as int),
                        s.episodes@.len() == m,
                        forall|t: int|
                            j <= t < m ==> #[trigger] s.episodes@[t] == eps0[t],
                        forall|t: int|
                            0 <= t < j ==> #[trigger] s.episodes@[t] == carry_episode(
                                eps0[t],
                                old_shows[k as int],
                            ),
                        s.id == scanned0[i as int].id,
                        s.title == scanned0[i as int].title,
                        s.path == scanned0[i as int].path,
                        s.total_episodes == scanned0[i as int].total_episodes,
                        s.seasons == scanned0[i as int].seasons,
                        s.specials == scanned0[i as int].specials,
                        s.cover_path == scanned0[i as int].cover_path,
                        eps0 == scanned0[i as int].episodes@,
                    decreases m - j,
                {
                    let number = s.episodes[j].number;
                    if let Some(x) = find_ep_last_index(&self.shows[k].episodes, number) {
                        let watched = self.shows[k].episodes[x].watched;
                        let pos = self.shows[k].episodes[x].last_position;
                        let ep = &mut s.episodes[j];
                        ep.watched = watched;
                        ep.last_position = pos;
                    }
                    j += 1;
                }
                proof {
                    assert(s.episodes@ =~= Seq::new(
                        eps0.len(),
                        |t: int| carry_episode(eps0[t], old_shows[k as int]),
                    ));
                    assert(carried_show(s, scanned0[i as int], old_shows));
                }
            } else {
                proof {
                    assert(carried_show(s, scanned0[i as int], old_shows));
                }
            }
            merged.push(s);
            i += 1;
        }
        self.shows = merged;
    }

    /// The first show with the given identifier.
    pub fn get_show(&self, id: &str) -> (r: Option<&Show>)
        ensures
            r is Some <==> find_show_idx(self.shows@, 0, id@) is Some,
            r is Some ==> *r->0 == self.shows@[find_show_idx(self.shows@, 0, id@)->0],
    {
        let n = self.shows.len();
        let mut k: usize = 0;
        while k < n
            invariant
                k <= n,
                n == self.shows@.len(),
                find_show_idx(self.shows@, 0, id@) == find_show_idx(self.shows@, k as int, id@),
            decreases n - k,
        {
            if crate::text::str_eq(self.shows[k].id.as_str(), id) {
                return Some(&self.shows[k]);
            }
            k += 1;
            proof {
                assert(find_show_idx(self.shows@, k - 1, id@) == find_show_idx(
                    self.shows@,
                    k as int,
                    id@,
                ));
            }
        }
        None
    }

    /// The position of the first show with the given identifier, for
    /// callers that go on to change it.
    pub fn get_show_mut(&mut self, id: &str) -> (r: Option<usize>)
        ensures
            *final(self) == *old(self),
            r is Some <==> find_show_idx(old(self).shows@, 0, id@) is Some,
            r is Some ==> find_show_idx(old(self).shows@, 0, id@)->0 == r->0 as int && r->0 < old(
                self,
            ).shows@.len(),
    {
        let n = self.shows.len();
        let mut k: usize = 0;
        while k < n
            invariant
                k <= n,
                n == self.shows@.len(),
                *self == *old(self),
                find_show_idx(self.shows@, 0, id@) == find_show_idx(self.shows@, k as int, id@),
            decreases n - k,
        {
            if crate::text::str_eq(self.shows[k].id.as_str(), id) {
                return Some(k);
            }
            k += 1;
            proof {
                assert(find_show_idx(self.shows@, k - 1, id@) == find_show_idx(
                    self.shows@,
                    k as int,
                    id@,
                ));
            }
        }
        None
    }

    /// Flips the watched flag of a flat episode; an episode marked
    /// watched forgets its playback position. Returns whether anything
    /// changed.
    pub fn toggle_watched(&mut self, show_id: &str, episode_num: u32) -> (r: bool)
        ensures
            spec_toggled(final(self).shows@, old(self).shows@, show_id@, episode_num, r),
            final(self).tracked_shows == old(self).tracked_shows,
            final(self).archived_shows == old(self).archived_shows,
    {
        if let Some(k) = self.get_show_mut(show_id) {
            if let Some(j) = find_episode_index(&self.shows[k].episodes, episode_num) {
                let mut e = self.shows[k].episodes[j].duplicate();
                e.watched = !e.watched;
                if e.watched {
                    e.last_position = 0;
                }
                set_flat_episode(&mut self.shows, k, j, e);
                return true;
            }
        }
        true && false
    }

    /// Records the playback position of a flat episode, when the show
    /// and episode exist.
    pub fn update_position(&mut self, show_id: &str, episode_num: u32, position: u64)
        ensures
            spec_position_updated(
                final(self).shows@,
                old(self).shows@,
                show_id@,
                episode_num,
                position,
            ),
            final(self).tracked_shows == old(self).tracked_shows,
            final(self).archived_shows == old(self).archived_shows,
    {
        if let Some(k) = self.get_show_mut(show_id) {
            if let Some(j) = find_episode_index(&self.shows[k].episodes, episode_num) {
                let mut e = self.shows[k].episodes[j].duplicate();
                e.last_position = position;
                set_flat_episode(&mut self.shows, k, j, e);
            }
        }
    }

    /// Marks a flat episode watched and clears its playback position,
    /// when the show and episode exist.
    pub fn mark_watched(&mut self, show_id: &str, episode_num: u32)
        ensures
            spec_marked_watched(final(self).shows@, old(self).shows@, show_id@, episode_num),
            final(self).tracked_shows == old(self).tracked_shows,
            final(self).archived_shows == old(self).archived_shows,
    {
        if let Some(k) = self.get_show_mut(show_id) {
            if let Some(j) = find_episode_index(&self.shows[k].episodes, episode_num) {
                let mut e = self.shows[k].episodes[j].duplicate();
                e.watched = true;
                e.last_position = 0;
                set_flat_episode(&mut self.shows, k, j, e);
            }
        }
    }

    /// The show was archived at some point.
    pub fn is_archived(&self, show_id: &str) -> (r: bool)
        ensures
            r == exists|t: int|
                0 <= t < self.archived_shows@.len() && (#[trigger] self.archived_shows@[t]).id@
                    == show_id@,
    {
        let n = self.archived_shows.len();
        let mut k: usize = 0;
        while k < n
            invariant
                k <= n,
                n == self.archived_shows@.len(),
                forall|t: int| 0 <= t < k ==> (#[trigger] self.archived_shows@[t]).id@ != show_id@,
            decreases n - k,
        {
            if crate::text::str_eq(self.archived_shows[k].id.as_str(), show_id) {
                return true;
            }
            k += 1;
        }
        false
    }
}

/// Replaces one flat episode of one show, leaving everything else as
/// it was.
fn set_flat_episode(shows: &mut Vec<Show>, k: usize, j: usize, e: Episode)
    requires
        k < old(shows)@.len(),
        j < old(shows)@[k as int].episodes@.len(),
    ensures
        shows_with_ep(final(shows)@, old(shows)@, k as int, j as int, e),
{
    let mut show = shows.remove(k);
    let ghost eps0 = show.episodes@;
    show.episodes.set(j, e);
    proof {
        assert(show.episodes@ =~= eps0.update(j as int, e));
    }
    shows.insert(k, show);
    proof {
        assert(final(shows)@ =~= old(shows)@.update(
            k as int,
            final(shows)@[k as int],
        ));
    }
}

/// `out` is `shows` with the episode `(k, j)` replaced by `f`; every
/// other show and every other field of show `k` is unchanged.
pub open spec fn shows_with_ep(out: Seq<Show>, shows: Seq<Show>, k: int, j: int, f: Episode) -> bool
    recommends
        0 <= k < shows.len(),
{
    &&& out.len() == shows.len()
    &&& forall|t: int| 0 <= t < shows.len() && t != k ==> out[t] == shows[t]
    &&& show_like(out[k], shows[k], shows[k].episodes@.update(j, f))
}

/// The episode update performed by a watched-flag toggle.
pub open spec fn spec_toggled(
    out: Seq<Show>,
    shows: Seq<Show>,
    id: Seq<char>,
    number: u32,
    r: bool,
) -> bool {
    match find_show_idx(shows, 0, id) {
        Some(k) => match find_ep_idx(shows[k].episodes@, 0, number) {
            Some(j) => {
                let e = shows[k].episodes@[j];
                let f = Episode {
                    watched: !e.watched,
                    last_position: if !e.watched {
                        0
                    } else {
                        e.last_position
                    },
                    ..e
                };
                r && shows_with_ep(out, shows, k, j, f)
            },
            None => out == shows && !r,
        },
        None => out == shows && !r,
    }
}

/// The episode update performed by a position update.
pub open spec fn spec_position_updated(
    out: Seq<Show>,
    shows: Seq<Show>,
    id: Seq<char>,
    number: u32,
    position: u64,
) -> bool {
    match find_show_idx(shows, 0, id) {
        Some(k) => match find_ep_idx(shows[k].episodes@, 0, number) {
            Some(j) => {
                let e = shows[k].episodes@[j];
                shows_with_ep(out, shows, k, j, Episode { last_position: position, ..e })
            },
            None => out == shows,
        },
        None => out == shows,
    }
}

/// The episode update performed by marking watched.
pub open spec fn spec_marked_watched(
    out: Seq<Show>,
    shows: Seq<Show>,
    id: Seq<char>,
    number: u32,
) -> bool {
    match find_show_idx(shows, 0, id) {
        Some(k) => match find_ep_idx(shows[k].episodes@, 0, number) {
            Some(j) => {
                let e = shows[k].episodes@[j];
                shows_with_ep(out, shows, k, j, Episode { watched: true, last_position: 0, ..e })
            },
            None => out == shows,
        },
        None => out == shows,
    }
}

} // verus!
