//! Search-result data and result-set plumbing for the external title
//! search: the result record, category and filter selectors, the
//! batch-title heuristics, and the accumulation rules that merge result
//! pages and decide when enough results have been gathered.

use vstd::prelude::*;

use crate::text::{
    digit_run, digit_run_at, kw_at, run_len, run_len_at, to_chars, wa, wa_at, wb, wb_at, CharClass,
};

verus! {

/// One row of an external search result.
#[derive(Debug, Clone)]
pub struct NyaaResult {
    pub title: String,
    pub category: String,
    pub size: String,
    pub seeders: u32,
    pub leechers: u32,
    pub downloads: u32,
    pub torrent_url: String,
    pub magnet_link: String,
    pub date: String,
    pub is_trusted: bool,
    pub is_batch: bool,
}

/// The search categories offered by the external source.
#[derive(Debug, Clone, Copy, PartialEq, Eq, Structural)]
pub enum NyaaCategory {
    AllAnime,
    AnimeEnglish,
    AnimeRaw,
    AnimeNonEnglish,
}

impl NyaaCategory {
    /// The category code of the search URL.
    pub fn as_query_param(&self) -> (r: &'static str)
        ensures
            r@ == match *self {
                NyaaCategory::AllAnime => "1_0"@,
                NyaaCategory::AnimeEnglish => "1_2"@,
                NyaaCategory::AnimeRaw => "1_4"@,
                NyaaCategory::AnimeNonEnglish => "1_3"@,
            },
    {
        match self {
            NyaaCategory::AllAnime => "1_0",
            NyaaCategory::AnimeEnglish => "1_2",
            NyaaCategory::AnimeRaw => "1_4",
            NyaaCategory::AnimeNonEnglish => "1_3",
        }
    }

    /// The display label of the category.
    pub fn as_display(&self) -> (r: &'static str)
        ensures
            r@ == match *self {
                NyaaCategory::AllAnime => "All Anime"@,
                NyaaCategory::AnimeEnglish => "English-translated"@,
                NyaaCategory::AnimeRaw => "Raw"@,
                NyaaCategory::AnimeNonEnglish => "Non-English"@,
            },
    {
        match self {
            NyaaCategory::AllAnime => "All Anime",
            NyaaCategory::AnimeEnglish => "English-translated",
            NyaaCategory::AnimeRaw => "Raw",
            NyaaCategory::AnimeNonEnglish => "Non-English",
        }
    }

    /// The next category in the cycling order of the selector.
    pub fn next(&self) -> (r: NyaaCategory)
        ensures
            r == match *self {
                NyaaCategory::AllAnime => NyaaCategory::AnimeEnglish,
                NyaaCategory::AnimeEnglish => NyaaCategory::AnimeRaw,
                NyaaCategory::AnimeRaw => NyaaCategory::AnimeNonEnglish,
                NyaaCategory::AnimeNonEnglish => NyaaCategory::AllAnime,
            },
    {
        match self {
            NyaaCategory::AllAnime => NyaaCategory::AnimeEnglish,
            NyaaCategory::AnimeEnglish => NyaaCategory::AnimeRaw,
            NyaaCategory::AnimeRaw => NyaaCategory::AnimeNonEnglish,
            NyaaCategory::AnimeNonEnglish => NyaaCategory::AllAnime,
        }
    }
}

impl Default for NyaaCategory {
    /// Every anime category.
    fn default() -> (r: NyaaCategory)
        ensures
            r == NyaaCategory::AllAnime,
    {
        NyaaCategory::AllAnime
    }
}

/// The trust filters offered by the external source.
#[derive(Debug, Clone, Copy, PartialEq, Eq, Structural)]
pub enum NyaaFilter {
    NoFilter,
    TrustedOnly,
    NoRemakes,
}

impl NyaaFilter {
    /// The filter code of the search URL.
    pub fn as_query_param(&self) -> (r: &'static str)
        ensures
            r@ == match *self {
                NyaaFilter::NoFilter => "0"@,
                NyaaFilter::TrustedOnly => "2"@,
                NyaaFilter::NoRemakes => "1"@,
            },
    {
        match self {
            NyaaFilter::NoFilter => "0",
            NyaaFilter::TrustedOnly => "2",
            NyaaFilter::NoRemakes => "1",
        }
    }

    /// The display label of the filter.
    pub fn as_display(&self) -> (r: &'static str)
        ensures
            r@ == match *self {
                NyaaFilter::NoFilter => "No Filter"@,
                NyaaFilter::TrustedOnly => "Trusted Only"@,
                NyaaFilter::NoRemakes => "No Remakes"@,
            },
    {
        match self {
            NyaaFilter::NoFilter => "No Filter",
            NyaaFilter::TrustedOnly => "Trusted Only",
            NyaaFilter::NoRemakes => "No Remakes",
        }
    }

    /// The next filter in the cycling order of the selector.
    pub fn next(&self) -> (r: NyaaFilter)
        ensures
            r == match *self {
                NyaaFilter::NoFilter => NyaaFilter::TrustedOnly,
                NyaaFilter::TrustedOnly => NyaaFilter::NoRemakes,
                NyaaFilter::NoRemakes => NyaaFilter::NoFilter,
            },
    {
        match self {
            NyaaFilter::NoFilter => NyaaFilter::TrustedOnly,
            NyaaFilter::TrustedOnly => NyaaFilter::NoRemakes,
            NyaaFilter::NoRemakes => NyaaFilter::NoFilter,
        }
    }
}

impl Default for NyaaFilter {
    /// No filtering.
    fn default() -> (r: NyaaFilter)
        ensures
            r == NyaaFilter::NoFilter,
    {
        NyaaFilter::NoFilter
    }
}

// ---------------------------------------------------------------------------
// Batch-title detection
// ---------------------------------------------------------------------------

/// A batch marker in a release title at position `i`: a bracketed batch
/// tag, the word `complete`, a `Season N` phrase, a bare `Sxx` pack
/// marker (capital `S`, two digits), or an episode range closed by an
/// end marker.
pub open spec fn tb_match_at(s: Seq<char>, i: int) -> bool {
    let d = digit_run(s, i);
    ||| kw_at(s, i, "[batch]"@)
    ||| (wb(s, i) && kw_at(s, i, "complete"@) && wa(s, i + 8))
    ||| (wb(s, i) && kw_at(s, i, "season"@) && {
        let w = run_len(s, i + 6, CharClass::WSpace);
        let e = digit_run(s, i + 6 + w);
        w >= 1 && e >= 1 && wa(s, i + 6 + w + e)
    })
    ||| (wb(s, i) && 0 <= i && i < s.len() && s[i] == 'S' && digit_run(s, i + 1) == 2 && wa(
        s,
        i + 3,
    ))
    ||| (d >= 1 && 0 <= i && i + d < s.len() && s[i + d] == '-' && {
        let e = digit_run(s, i + d + 1);
        let w = run_len(s, i + d + 1 + e, CharClass::WSpace);
        let j = i + d + 1 + e + w;
        e >= 1 && (kw_at(s, j, "end"@) || kw_at(s, j, "final"@))
    })
}

pub open spec fn tb_found_from(s: Seq<char>, i: int) -> bool
    decreases s.len() - i,
    when 0 <= i <= s.len()
{
    if i >= s.len() {
        false
    } else if tb_match_at(s, i) {
        true
    } else {
        tb_found_from(s, i + 1)
    }
}

fn tb_try_at(v: &Vec<char>, i: usize) -> (r: bool)
    requires
        i < v@.len(),
    ensures
        r == tb_match_at(v@, i as int),
{
    let n = v.len();
    let batch_tag = to_chars("[batch]");
    let complete = to_chars("complete");
    let season = to_chars("season");
    let end_kw = to_chars("end");
    let final_kw = to_chars("final");
    proof {
        reveal_strlit("[batch]");
        reveal_strlit("complete");
        reveal_strlit("season");
        reveal_strlit("end");
        reveal_strlit("final");
    }
    if crate::text::ci_kw_at(v, i, &batch_tag) {
        return true;
    }
    let bounded = wb_at(v, i);
    if bounded && crate::text::ci_kw_at(v, i, &complete) && wa_at(v, i + 8) {
        return true;
    }
    if bounded && crate::text::ci_kw_at(v, i, &season) {
        let w = run_len_at(v, i + 6, CharClass::WSpace);
        let e = digit_run_at(v, i + 6 + w);
        if w >= 1 && e >= 1 && wa_at(v, i + 6 + w + e) {
            return true;
        }
    }
    if bounded && v[i] == 'S' {
        let d2 = digit_run_at(v, i + 1);
        if d2 == 2 && wa_at(v, i + 3) {
            return true;
        }
    }
    let d = digit_run_at(v, i);
    if d >= 1 && i + d < n && v[i + d] == '-' {
        let e = digit_run_at(v, i + d + 1);
        if e >= 1 {
            let w = run_len_at(v, i + d + 1 + e, CharClass::WSpace);
            let j = i + d + 1 + e + w;
            if crate::text::ci_kw_at(v, j, &end_kw) || crate::text::ci_kw_at(v, j, &final_kw) {
                return true;
            }
        }
    }
    false
}

/// Decides from its title alone whether a release looks like a batch.
pub fn title_indicates_batch(title: &str) -> (r: bool)
    ensures
        r == tb_found_from(title@, 0),
{
    let v = to_chars(title);
    let n = v.len();
    let mut i: usize = 0;
    while i < n
        invariant
            i <= n,
            n == v@.len(),
            v@ == title@,
            tb_found_from(v@, 0) == tb_found_from(v@, i as int),
        decreases n - i,
    {
        if tb_try_at(&v, i) {
            return true;
        }
        i += 1;
        proof {
            assert(tb_found_from(v@, i - 1) == tb_found_from(v@, i as int));
        }
    }
    false
}

// ---------------------------------------------------------------------------
// Result accumulation across alternative queries
// ---------------------------------------------------------------------------

/// A magnet link already seen in the accumulated results.
pub open spec fn has_magnet(acc: Seq<NyaaResult>, magnet: Seq<char>) -> bool {
    exists|t: int| 0 <= t < acc.len() && acc[t].magnet_link@ == magnet
}

/// The results of one more page merged in, keeping only those whose
/// magnet link was not seen before (also within the page itself).
pub open spec fn spec_merge(acc: Seq<NyaaResult>, page: Seq<NyaaResult>, i: int) -> Seq<
    NyaaResult,
>
    decreases page.len() - i,
    when 0 <= i <= page.len()
{
    if i >= page.len() {
        acc
    } else if has_magnet(acc, page[i].magnet_link@) {
        spec_merge(acc, page, i + 1)
    } else {
        spec_merge(acc.push(page[i]), page, i + 1)
    }
}

fn has_magnet_ex(acc: &Vec<NyaaResult>, magnet: &String) -> (r: bool)
    ensures
        r == has_magnet(acc@, magnet@),
{
    let n = acc.len();
    let mut t: usize = 0;
    while t < n
        invariant
            t <= n,
            n == acc@.len(),
            forall|u: int| 0 <= u < t ==> acc@[u].magnet_link@ != magnet@,
        decreases n - t,
    {
        if acc[t].magnet_link == *magnet {
            return true;
        }
        t += 1;
    }
    false
}

/// Merges one page of results into the accumulated list, deduplicating
/// by magnet link; returns how many results were new.
pub fn merge_search_results(acc: &mut Vec<NyaaResult>, page: Vec<NyaaResult>) -> (added: usize)
    ensures
        final(acc)@ == spec_merge(old(acc)@, page@, 0),
        final(acc)@.len() == old(acc)@.len() + added,
{
    let mut added: usize = 0;
    let mut page = page;
    let n = page.len();
    let ghost page0 = page@;
    let mut i: usize = 0;
    while i < n
        invariant
            i <= n,
            n == page0.len(),
            page@ == page0.subrange(i as int, n as int),
            spec_merge(old(acc)@, page0, 0) == spec_merge(acc@, page0, i as int),
            acc@.len() == old(acc)@.len() + added,
            added <= i,
        decreases n - i,
    {
        let r = page.remove(0);
        proof {
            assert(r == page0[i as int]);
            assert(page@ =~= page0.subrange(i + 1, n as int));
        }
        if !has_magnet_ex(acc, &r.magnet_link) {
            acc.push(r);
            added = added + 1;
        }
        i += 1;
    }
    proof {
        assert(spec_merge(acc@, page0, n as int) == acc@);
    }
    added
}

/// The stop rule of the search loop: one page added something and at
/// least fifteen results exist, or thirty results exist regardless.
pub fn enough_results(added: usize, total: usize) -> (r: bool)
    ensures
        r == ((added > 0 && total >= 15) || total >= 30),
{
    (added > 0 && total >= 15) || total >= 30
}

} // verus!
