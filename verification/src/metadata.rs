//! Metadata-service data and the import of a remote watching list into
//! tracked series.

use vstd::prelude::*;

use crate::models::TrackedSeries;
use crate::text::{chars_to_string, dec_digits, lower_seq, push_dec64, push_str_chars};

verus! {

/// The token bundle an authorization exchange yields.
#[derive(Debug, Clone)]
pub struct TokenResponse {
    pub access_token: String,
    pub refresh_token: String,
    pub expires_in: i64,
    pub token_type: String,
}

/// One entry of a user's remote anime list.
#[derive(Debug, Clone)]
pub struct UserAnimeEntry {
    pub mal_id: u64,
    pub title: String,
    pub num_episodes: Option<u32>,
    pub num_watched: u32,
}

/// The entry is already tracked, by metadata identifier or by a
/// case-folded title match.
pub open spec fn already_tracked(existing: Seq<TrackedSeries>, e: UserAnimeEntry) -> bool {
    exists|t: int|
        0 <= t < existing.len() && ((#[trigger] existing[t]).metadata_id == Some(e.mal_id)
            || lower_seq(existing[t].title@) == lower_seq(e.title@))
}

/// The entries of the first `i` that are not yet tracked, in order.
pub open spec fn kept_entries(
    existing: Seq<TrackedSeries>,
    entries: Seq<UserAnimeEntry>,
    i: int,
) -> Seq<UserAnimeEntry>
    decreases i,
    when 0 <= i <= entries.len()
{
    if i <= 0 {
        Seq::empty()
    } else {
        kept_entries(existing, entries, i - 1) + (if already_tracked(existing, entries[i - 1]) {
            Seq::<UserAnimeEntry>::empty()
        } else {
            seq![entries[i - 1]]
        })
    }
}

/// Turns a remote watching list into tracked series: entries already
/// tracked (by metadata identifier or case-folded title) are skipped;
/// each kept entry tracks its title as the search query, watches from
/// the episode after the last watched, and remembers its metadata
/// identifier.
pub fn import_watching_list(
    entries: Vec<UserAnimeEntry>,
    existing_tracked: &Vec<TrackedSeries>,
) -> (r: Vec<TrackedSeries>)
    requires
        forall|t: int| 0 <= t < entries@.len() ==> (#[trigger] entries@[t]).num_watched < u32::MAX,
    ensures
        ({
            let kept = kept_entries(existing_tracked@, entries@, entries@.len() as int);
            &&& r@.len() == kept.len()
            &&& forall|t: int|
                0 <= t < kept.len() ==> {
                    &&& (#[trigger] r@[t]).id@ == "mal-"@ + dec_digits(kept[t].mal_id as nat)
                    &&& r@[t].title == kept[t].title
                    &&& r@[t].query == kept[t].title
                    &&& r@[t].filter_group is None
                    &&& r@[t].filter_quality is None
                    &&& r@[t].min_episode == kept[t].num_watched + 1
                    &&& r@[t].season == 1
                    &&& r@[t].metadata_id == Some(kept[t].mal_id)
                }
        }),
{
    let ghost entries0 = entries@;
    let mut entries = entries;
    let mut out: Vec<TrackedSeries> = Vec::new();
    let n = entries.len();
    let mut i: usize = 0;
    while i < n
        invariant
            i <= n,
            n == entries0.len(),
            entries@.len() == n - i,
            forall|t: int| 0 <= t < entries@.len() ==> #[trigger] entries@[t] == entries0[t + i],
            forall|t: int|
                0 <= t < entries0.len() ==> (#[trigger] entries0[t]).num_watched < u32::MAX,
            ({
                let kept = kept_entries(existing_tracked@, entries0, i as int);
                &&& out@.len() == kept.len()
                &&& forall|t: int|
                    0 <= t < kept.len() ==> {
                        &&& (#[trigger] out@[t]).id@ == "mal-"@ + dec_digits(kept[t].mal_id as nat)
                        &&& out@[t].title == kept[t].title
                        &&& out@[t].query == kept[t].title
                        &&& out@[t].filter_group is None
                        &&& out@[t].filter_quality is None
                        &&& out@[t].min_episode == kept[t].num_watched + 1
                        &&& out@[t].season == 1
                        &&& out@[t].metadata_id == Some(kept[t].mal_id)
                    }
            }),
        decreases n - i,
    {
        let ghost e_pre = entries@;
        let e = entries.remove(0);
        proof {
            assert(e == entries0[i as int]);
            assert forall|t: int|
                0 <= t < entries@.len() implies #[trigger] entries@[t] == entries0[t + i + 1] by {
                assert(entries@[t] == e_pre[t + 1]);
            }
        }
        let mut known = false;
        let m = existing_tracked.len();
        let mut k: usize = 0;
        while k < m
            invariant
                k <= m,
                m == existing_tracked@.len(),
                known == exists|t: int|
                    0 <= t < k && ((#[trigger] existing_tracked@[t]).metadata_id == Some(e.mal_id)
                        || lower_seq(existing_tracked@[t].title@) == lower_seq(e.title@)),
            decreases m - k,
        {
            let ex = &existing_tracked[k];
            let id_match = match ex.metadata_id {
                Some(x) => x == e.mal_id,
                None => false,
            };
            let mut title_match = false;
            if !id_match {
                let a = crate::text::to_chars(ex.title.as_str());
                let la = crate::text::lower_vec(&a);
                let b = crate::text::to_chars(e.title.as_str());
                let lb = crate::text::lower_vec(&b);
                title_match = la.len() == lb.len() && crate::text::cs_lit_at(&la, 0, &lb);
                proof {
                    if title_match {
                        assert(la@ =~= lb@);
                    } else {
                        if lower_seq(ex.title@) == lower_seq(e.title@) {
                            assert(forall|u: int| 0 <= u < lb@.len() ==> la@[0 + u] == lb@[u]);
                        }
                    }
                }
            }
            if id_match || title_match {
                known = true;
            }
            k += 1;
        }
        if !known {
            let mut idc: Vec<char> = Vec::new();
            push_str_chars(&mut idc, "mal-");
            push_dec64(&mut idc, e.mal_id);
            let ts = TrackedSeries {
                id: chars_to_string(&idc),
                title: e.title.clone(),
                query: e.title,
                filter_group: None,
                filter_quality: None,
                min_episode: e.num_watched + 1,
                season: 1,
                metadata_id: Some(e.mal_id),
            };
            out.push(ts);
            proof {
                assert(kept_entries(existing_tracked@, entries0, i + 1) =~= kept_entries(
                    existing_tracked@,
                    entries0,
                    i as int,
                ).push(entries0[i as int]));
            }
        } else {
            proof {
                assert(kept_entries(existing_tracked@, entries0, i + 1) =~= kept_entries(
                    existing_tracked@,
                    entries0,
                    i as int,
                ));
            }
        }
        i += 1;
    }
    out
}

} // verus!
