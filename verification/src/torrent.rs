//! Torrent-side data: download states as both clients report them, and
//! the classification of files inside a torrent listing.

use vstd::prelude::*;

use crate::scanner::rfind_dot;
use crate::text::{
    chars_to_string, digit_run, digit_run_at, join_char, lower_char, lower_seq, push_str_chars,
    run_len, run_len_at, str_eq, to_chars, to_lower_char, wa, wa_at, wb, wb_at, CharClass,
};

verus! {

/// The state of a torrent download.
#[derive(Debug, Clone, Copy, PartialEq, Eq, Structural)]
pub enum TorrentState {
    Downloading,
    Seeding,
    Paused,
    Queued,
    Checking,
    Error,
    Unknown,
}

impl TorrentState {
    /// The display label of the state.
    pub fn as_str(&self) -> (r: &'static str)
        ensures
            r@ == match *self {
                TorrentState::Downloading => "Downloading"@,
                TorrentState::Seeding => "Seeding"@,
                TorrentState::Paused => "Paused"@,
                TorrentState::Queued => "Queued"@,
                TorrentState::Checking => "Checking"@,
                TorrentState::Error => "Error"@,
                TorrentState::Unknown => "Unknown"@,
            },
    {
        match self {
            TorrentState::Downloading => "Downloading",
            TorrentState::Seeding => "Seeding",
            TorrentState::Paused => "Paused",
            TorrentState::Queued => "Queued",
            TorrentState::Checking => "Checking",
            TorrentState::Error => "Error",
            TorrentState::Unknown => "Unknown",
        }
    }
}

/// The state a qBittorrent state string denotes.
pub open spec fn spec_qb_state(s: Seq<char>) -> TorrentState {
    if s == "downloading"@ || s == "forcedDL"@ || s == "metaDL"@ || s == "stalledDL"@ {
        TorrentState::Downloading
    } else if s == "uploading"@ || s == "forcedUP"@ || s == "stalledUP"@ {
        TorrentState::Seeding
    } else if s == "pausedDL"@ || s == "pausedUP"@ {
        TorrentState::Paused
    } else if s == "queuedDL"@ || s == "queuedUP"@ {
        TorrentState::Queued
    } else if s == "checkingDL"@ || s == "checkingUP"@ || s == "checkingResumeData"@ {
        TorrentState::Checking
    } else if s == "error"@ || s == "missingFiles"@ {
        TorrentState::Error
    } else {
        TorrentState::Unknown
    }
}

/// Maps a qBittorrent state string to a torrent state.
pub fn parse_qb_state(state: &str) -> (r: TorrentState)
    ensures
        r == spec_qb_state(state@),
{
    if str_eq(state, "downloading") || str_eq(state, "forcedDL") || str_eq(state, "metaDL")
        || str_eq(state, "stalledDL") {
        TorrentState::Downloading
    } else if str_eq(state, "uploading") || str_eq(state, "forcedUP") || str_eq(
        state,
        "stalledUP",
    ) {
        TorrentState::Seeding
    } else if str_eq(state, "pausedDL") || str_eq(state, "pausedUP") {
        TorrentState::Paused
    } else if str_eq(state, "queuedDL") || str_eq(state, "queuedUP") {
        TorrentState::Queued
    } else if str_eq(state, "checkingDL") || str_eq(state, "checkingUP") || str_eq(
        state,
        "checkingResumeData",
    ) {
        TorrentState::Checking
    } else if str_eq(state, "error") || str_eq(state, "missingFiles") {
        TorrentState::Error
    } else {
        TorrentState::Unknown
    }
}

/// The state a Transmission status code denotes.
pub open spec fn spec_transmission_state(status: i64) -> TorrentState {
    if status == 0 {
        TorrentState::Paused
    } else if status == 1 || status == 2 {
        TorrentState::Checking
    } else if status == 3 || status == 5 {
        TorrentState::Queued
    } else if status == 4 {
        TorrentState::Downloading
    } else if status == 6 {
        TorrentState::Seeding
    } else {
        TorrentState::Unknown
    }
}

/// Maps a Transmission status code to a torrent state.
pub fn parse_transmission_status(status: i64) -> (r: TorrentState)
    ensures
        r == spec_transmission_state(status),
{
    if status == 0 {
        TorrentState::Paused
    } else if status == 1 || status == 2 {
        TorrentState::Checking
    } else if status == 3 || status == 5 {
        TorrentState::Queued
    } else if status == 4 {
        TorrentState::Downloading
    } else if status == 6 {
        TorrentState::Seeding
    } else {
        TorrentState::Unknown
    }
}

/// The kind of a file inside a torrent.
#[derive(Debug, Clone, Copy, PartialEq, Eq, Structural)]
pub enum FileType {
    Video,
    Subtitle,
    Other,
}

/// One file of a torrent listing.
#[derive(Debug, Clone)]
pub struct TorrentFileEntry {
    pub path: String,
    pub size: u64,
    pub file_type: FileType,
}

/// A panel section that may still be loading.
pub enum PreviewSection<T> {
    Loading,
    Loaded(T),
    Error(String),
}

/// The case-folded extension of a path: the segment after the last
/// dot, or the whole path when it has none.
pub open spec fn ext_of(p: Seq<char>) -> Seq<char> {
    lower_seq(
        match rfind_dot(p, p.len() - 1) {
            Some(q) => p.subrange(q + 1, p.len() as int),
            None => p,
        },
    )
}

pub open spec fn spec_classify(p: Seq<char>) -> FileType {
    let e = ext_of(p);
    if e == "mkv"@ || e == "mp4"@ || e == "avi"@ || e == "webm"@ || e == "m4v"@ || e == "mov"@
        || e == "wmv"@ {
        FileType::Video
    } else if e == "ass"@ || e == "ssa"@ || e == "srt"@ || e == "sub"@ || e == "idx"@ || e
        == "vtt"@ {
        FileType::Subtitle
    } else {
        FileType::Other
    }
}

/// Classifies a file inside a torrent by its extension.
pub fn classify_file(path: &str) -> (r: FileType)
    ensures
        r == spec_classify(path@),
{
    let v = to_chars(path);
    let n = v.len();
    let mut j = n;
    while j > 0 && v[j - 1] != '.'
        invariant
            j <= n,
            n == v@.len(),
            rfind_dot(v@, n - 1) == rfind_dot(v@, j - 1),
        decreases j,
    {
        j -= 1;
        proof {
            assert(rfind_dot(v@, j as int) == rfind_dot(v@, j - 1));
        }
    }
    let st = if j > 0 {
        proof {
            assert(rfind_dot(v@, n - 1) == Some(j - 1));
        }
        j
    } else {
        proof {
            assert(rfind_dot(v@, n - 1) is None);
            assert(v@.subrange(0, n as int) =~= v@);
        }
        0
    };
    let mut ext: Vec<char> = Vec::new();
    let mut t = st;
    while t < n
        invariant
            st <= t <= n,
            n == v@.len(),
            ext@ == lower_seq(v@.subrange(st as int, t as int)),
        decreases n - t,
    {
        ext.push(crate::text::to_lower_char(v[t]));
        t += 1;
        proof {
            assert(ext@ =~= lower_seq(v@.subrange(st as int, t as int)));
        }
    }
    proof {
        assert(ext@ =~= ext_of(path@));
    }
    let s = crate::text::chars_to_string(&ext);
    if str_eq(s.as_str(), "mkv") || str_eq(s.as_str(), "mp4") || str_eq(s.as_str(), "avi")
        || str_eq(s.as_str(), "webm") || str_eq(s.as_str(), "m4v") || str_eq(s.as_str(), "mov")
        || str_eq(s.as_str(), "wmv") {
        FileType::Video
    } else if str_eq(s.as_str(), "ass") || str_eq(s.as_str(), "ssa") || str_eq(s.as_str(), "srt")
        || str_eq(s.as_str(), "sub") || str_eq(s.as_str(), "idx") || str_eq(s.as_str(), "vtt") {
        FileType::Subtitle
    } else {
        FileType::Other
    }
}

/// One raw file record of a torrent's metadata: its path segments and
/// its length.
#[derive(Debug, Clone)]
pub struct RawTorrentFile {
    pub path: Vec<String>,
    pub length: i64,
}

/// The segments of a torrent file path joined by slashes.
pub open spec fn joined_segments(parts: Seq<String>) -> Seq<char> {
    join_char('/', parts.map_values(|s: String| s@))
}

/// Joins the path segments of a torrent file record.
pub fn join_segments(parts: &Vec<String>) -> (r: String)
    ensures
        r@ == joined_segments(parts@),
{
    let ghost views = parts@.map_values(|s: String| s@);
    let n = parts.len();
    let mut out: Vec<char> = Vec::new();
    let mut i: usize = 0;
    while i < n
        invariant
            i <= n,
            n == parts@.len(),
            views == parts@.map_values(|s: String| s@),
            out@ == join_char('/', views.subrange(0, i as int)),
        decreases n - i,
    {
        if i > 0 {
            out.push('/');
        }
        push_str_chars(&mut out, parts[i].as_str());
        i += 1;
        proof {
            assert(views.subrange(0, i as int).drop_last() =~= views.subrange(0, i - 1));
            assert(views.subrange(0, i as int).last() == views[i - 1]);
            if i == 1 {
                assert(out@ =~= join_char('/', views.subrange(0, 1)));
            } else {
                assert(out@ =~= join_char('/', views.subrange(0, i as int)));
            }
        }
    }
    proof {
        assert(views.subrange(0, n as int) =~= views);
    }
    crate::text::chars_to_string(&out)
}

/// The entries a torrent metadata listing yields: one per file record
/// with its segments joined, or a single entry of the torrent's own
/// name when it carries no file list.
pub fn torrent_file_entries(
    name: String,
    length: Option<i64>,
    files: Option<Vec<RawTorrentFile>>,
) -> (r: Vec<TorrentFileEntry>)
    requires
        files matches Some(fs) ==> forall|t: int|
            0 <= t < fs@.len() ==> (#[trigger] fs@[t]).length >= 0,
        files is None && length is Some ==> length->0 >= 0,
    ensures
        match files {
            Some(fs) => {
                &&& r@.len() == fs@.len()
                &&& forall|t: int|
                    0 <= t < fs@.len() ==> {
                        &&& (#[trigger] r@[t]).path@ == joined_segments(fs@[t].path@)
                        &&& r@[t].size == fs@[t].length
                        &&& r@[t].file_type == spec_classify(joined_segments(fs@[t].path@))
                    }
            },
            None => {
                &&& r@.len() == 1
                &&& r@[0].path == name
                &&& r@[0].size == (match length {
                    Some(l) => l as u64,
                    None => 0u64,
                })
                &&& r@[0].file_type == spec_classify(name@)
            },
        },
{
    match files {
        Some(fs) => {
            let n = fs.len();
            let mut out: Vec<TorrentFileEntry> = Vec::new();
            let mut i: usize = 0;
            while i < n
                invariant
                    i <= n,
                    n == fs@.len(),
                    out@.len() == i,
                    forall|t: int|
                        0 <= t < fs@.len() ==> (#[trigger] fs@[t]).length >= 0,
                    forall|t: int|
                        0 <= t < i ==> {
                            &&& (#[trigger] out@[t]).path@ == joined_segments(fs@[t].path@)
                            &&& out@[t].size == fs@[t].length
                            &&& out@[t].file_type == spec_classify(joined_segments(fs@[t].path@))
                        },
                decreases n - i,
            {
                let path = join_segments(&fs[i].path);
                let file_type = classify_file(path.as_str());
                let size = fs[i].length as u64;
                out.push(TorrentFileEntry { path, size, file_type });
                i += 1;
            }
            out
        },
        None => {
            let file_type = classify_file(name.as_str());
            let size: u64 = match length {
                Some(l) => l as u64,
                None => 0,
            };
            let mut out: Vec<TorrentFileEntry> = Vec::new();
            out.push(TorrentFileEntry { path: name, size, file_type });
            out
        },
    }
}

// ---------------------------------------------------------------------------
// Title extraction from a torrent name
// ---------------------------------------------------------------------------

/// First occurrence of a character at or after `i`.
pub open spec fn find_char(s: Seq<char>, i: int, c: char) -> Option<int>
    decreases s.len() - i,
    when 0 <= i <= s.len()
{
    if i >= s.len() {
        None
    } else if s[i] == c {
        Some(i)
    } else {
        find_char(s, i + 1, c)
    }
}

/// Every shortest open-to-close pair removed, left to right: each
/// opener with a closer after it goes, together with everything
/// between; text before an opener and after the last pair stays.
pub open spec fn strip_pairs(s: Seq<char>, open: char, close: char) -> Seq<char>
    decreases s.len(),
    via strip_pairs_dec
{
    match find_char(s, 0, open) {
        None => s,
        Some(a) => match find_char(s, a + 1, close) {
            None => s,
            Some(b) => s.subrange(0, a) + strip_pairs(
                s.subrange(b + 1, s.len() as int),
                open,
                close,
            ),
        },
    }
}

#[via_fn]
proof fn strip_pairs_dec(s: Seq<char>, open: char, close: char) {
    lemma_find_char_bounds(s, 0, open);
    match find_char(s, 0, open) {
        Some(a) => {
            lemma_find_char_bounds(s, a + 1, close);
        },
        None => {},
    }
}

proof fn lemma_find_char_bounds(s: Seq<char>, i: int, c: char)
    requires
        0 <= i <= s.len(),
    ensures
        find_char(s, i, c) matches Some(p) ==> i <= p < s.len() && s[p] == c,
    decreases s.len() - i,
{
    if i < s.len() && s[i] != c {
        lemma_find_char_bounds(s, i + 1, c);
    }
}

fn find_char_ex(v: &Vec<char>, i: usize, c: char) -> (r: Option<usize>)
    requires
        i <= v@.len(),
    ensures
        r is Some <==> find_char(v@, i as int, c) is Some,
        r is Some ==> find_char(v@, i as int, c)->0 == r->0 as int && i <= r->0 < v@.len(),
{
    let n = v.len();
    let mut j = i;
    while j < n
        invariant
            i <= j <= n,
            n == v@.len(),
            find_char(v@, i as int, c) == find_char(v@, j as int, c),
        decreases n - j,
    {
        if v[j] == c {
            return Some(j);
        }
        j += 1;
        proof {
            assert(find_char(v@, j - 1, c) == find_char(v@, j as int, c));
        }
    }
    None
}

/// Removes delimited spans, shortest first, left to right.
fn strip_pairs_ex(v: Vec<char>, open: char, close: char) -> (r: Vec<char>)
    ensures
        r@ == strip_pairs(v@, open, close),
    decreases v@.len(),
{
    let n = v.len();
    proof {
        lemma_find_char_bounds(v@, 0, open);
    }
    match find_char_ex(&v, 0, open) {
        None => v,
        Some(a) => {
            proof {
                lemma_find_char_bounds(v@, a + 1, close);
            }
            match find_char_ex(&v, a + 1, close) {
                None => v,
                Some(b) => {
                    let n = v.len();
                    let mut rest: Vec<char> = Vec::new();
                    let mut t = b + 1;
                    while t < n
                        invariant
                            b + 1 <= t <= n,
                            n == v@.len(),
                            rest@ == v@.subrange(b + 1, t as int),
                        decreases n - t,
                    {
                        rest.push(v[t]);
                        t += 1;
                        proof {
                            assert(rest@ =~= v@.subrange(b + 1, t as int));
                        }
                    }
                    let stripped = strip_pairs_ex(rest, open, close);
                    let mut out: Vec<char> = Vec::new();
                    let mut u: usize = 0;
                    while u < a
                        invariant
                            u <= a,
                            a < v@.len(),
                            out@ == v@.subrange(0, u as int),
                        decreases a - u,
                    {
                        out.push(v[u]);
                        u += 1;
                        proof {
                            assert(out@ =~= v@.subrange(0, u as int));
                        }
                    }
                    let mut out = out;
                    crate::text::push_seq(&mut out, &stripped);
                    proof {
                        assert(out@ =~= strip_pairs(v@, open, close));
                    }
                    out
                },
            }
        },
    }
}

/// An episode indicator begins at `i`: a dashed number, a combined
/// season-episode marker, or an `E`/`Ep` number, as the title splitter
/// understands them.
pub open spec fn indicator_at(s: Seq<char>, i: int) -> bool {
    let w = run_len(s, i, CharClass::WSpace);
    let dash = i + w;
    ||| (0 <= i && dash < s.len() && s[dash] == '-' && {
        let w2 = run_len(s, dash + 1, CharClass::WSpace);
        let d = digit_run(s, dash + 1 + w2);
        1 <= d <= 3 && wa(s, dash + 1 + w2 + d)
    })
    ||| (0 <= i && i < s.len() && wb(s, i) && lower_char(s[i]) == 's' && {
        let d = digit_run(s, i + 1);
        1 <= d <= 2 && i + 1 + d < s.len() && lower_char(s[i + 1 + d]) == 'e' && digit_run(
            s,
            i + 2 + d,
        ) >= 1
    })
    ||| (0 <= i && i < s.len() && wb(s, i) && lower_char(s[i]) == 'e' && {
        let j = if i + 1 < s.len() && lower_char(s[i + 1]) == 'p' {
            i + 2
        } else {
            i + 1
        };
        let w3 = run_len(s, j, CharClass::WSpace);
        let d = digit_run(s, j + w3);
        1 <= d <= 3 && wa(s, j + w3 + d)
    })
}

pub open spec fn indicator_from(s: Seq<char>, i: int) -> Option<int>
    decreases s.len() - i,
    when 0 <= i <= s.len()
{
    if i >= s.len() {
        None
    } else if indicator_at(s, i) {
        Some(i)
    } else {
        indicator_from(s, i + 1)
    }
}

/// The cleaned show title of a torrent name: bracketed and
/// parenthesized spans removed, everything from the first episode
/// indicator on dropped, and the rest trimmed.
pub open spec fn spec_extract_title(s: Seq<char>) -> Seq<char> {
    let clean = strip_pairs(strip_pairs(s, '[', ']'), '(', ')');
    let head = match indicator_from(clean, 0) {
        Some(p) => clean.subrange(0, p),
        None => clean,
    };
    crate::query::trim_ws(head)
}

fn indicator_try_at(v: &Vec<char>, i: usize) -> (r: bool)
    requires
        i < v@.len(),
    ensures
        r == indicator_at(v@, i as int),
{
    let n = v.len();
    let w = run_len_at(v, i, CharClass::WSpace);
    let dash = i + w;
    if dash < n && v[dash] == '-' {
        let w2 = run_len_at(v, dash + 1, CharClass::WSpace);
        let d = digit_run_at(v, dash + 1 + w2);
        if 1 <= d && d <= 3 && wa_at(v, dash + 1 + w2 + d) {
            return true;
        }
    }
    if wb_at(v, i) && to_lower_char(v[i]) == 's' {
        let d = digit_run_at(v, i + 1);
        if 1 <= d && d <= 2 && i + 1 + d < n && to_lower_char(v[i + 1 + d]) == 'e'
            && digit_run_at(v, i + 2 + d) >= 1 {
            return true;
        }
    }
    if wb_at(v, i) && to_lower_char(v[i]) == 'e' {
        let j = if i + 1 < n && to_lower_char(v[i + 1]) == 'p' {
            i + 2
        } else {
            i + 1
        };
        let w3 = run_len_at(v, j, CharClass::WSpace);
        let d = digit_run_at(v, j + w3);
        if 1 <= d && d <= 3 && wa_at(v, j + w3 + d) {
            return true;
        }
    }
    false
}

/// Extracts the show title out of a torrent name: release-group and
/// quality tags in brackets or parentheses go, and everything from the
/// first episode indicator on is cut away.
pub fn extract_anime_title(torrent_name: &str) -> (r: String)
    ensures
        r@ == spec_extract_title(torrent_name@),
{
    let v = to_chars(torrent_name);
    let v = strip_pairs_ex(v, '[', ']');
    let v = strip_pairs_ex(v, '(', ')');
    let n = v.len();
    let mut i: usize = 0;
    while i < n && !indicator_try_at(&v, i)
        invariant
            i <= n,
            n == v@.len(),
            indicator_from(v@, 0) == indicator_from(v@, i as int),
        decreases n - i,
    {
        i += 1;
        proof {
            assert(indicator_from(v@, i - 1) == indicator_from(v@, i as int));
        }
    }
    let cut = i;
    let mut head: Vec<char> = Vec::new();
    let mut t: usize = 0;
    while t < cut
        invariant
            t <= cut,
            cut <= v@.len(),
            head@ == v@.subrange(0, t as int),
        decreases cut - t,
    {
        head.push(v[t]);
        t += 1;
        proof {
            assert(head@ =~= v@.subrange(0, t as int));
        }
    }
    proof {
        if cut == n {
            assert(head@ =~= v@);
        }
    }
    let trimmed = crate::query::trim_chars(&head);
    chars_to_string(&trimmed)
}

} // verus!
