//! Library state, the scanner and the update matcher.

use miru_core::batch::DirTree;
use miru_core::library::Library;
use miru_core::models::{Episode, Show, TrackedSeries};
use miru_core::nyaa::NyaaResult;
use miru_core::scanner::{collect_episodes_from_dir, scan_media_dir, scan_show_dir};
use miru_core::tracking::{check_series_updates, ExistingTorrent};

fn leaf(name: &str, path: &str, files: &[&str]) -> DirTree {
    DirTree {
        name: String::from(name),
        path: String::from(path),
        files: files.iter().map(|f| String::from(*f)).collect(),
        subdirs: Vec::new(),
    }
}

fn result_titled(title: &str) -> NyaaResult {
    NyaaResult {
        title: String::from(title),
        category: String::from("Anime"),
        size: String::from("700 MiB"),
        seeders: 50,
        leechers: 2,
        downloads: 10,
        torrent_url: String::from("https://example.invalid/t"),
        magnet_link: format!("magnet:?xt={}", title),
        date: String::from("2024-01-01"),
        is_trusted: true,
        is_batch: false,
    }
}

fn frieren_series() -> TrackedSeries {
    TrackedSeries {
        id: String::from("frieren"),
        title: String::from("Frieren"),
        query: String::from("Frieren"),
        filter_group: None,
        filter_quality: None,
        min_episode: 6,
        season: 1,
        metadata_id: None,
    }
}

#[test]
fn test_update_matcher_watermark_and_ownership() {
    let mut show = Show::new(
        String::from("frieren"),
        String::from("Frieren"),
        String::from("/media/Frieren"),
    );
    show.episodes.push(Episode::new(6, String::from("Frieren - 06.mkv")));
    let mut lib: Library = Default::default();
    lib.shows.push(show);
    let results = vec![
        result_titled("[SubsPlease] Frieren - 05 [1080p].mkv"),
        result_titled("[SubsPlease] Frieren - 06 [1080p].mkv"),
        result_titled("[SubsPlease] Frieren - 07 [1080p].mkv"),
    ];
    let updates = check_series_updates(&lib, &frieren_series(), &results, &Vec::new());
    // Episode 5 sits below the watermark, episode 6 is already owned;
    // only episode 7 remains. The watermark itself still counts as
    // new: dropped episodes are strictly below it.
    assert_eq!(updates.len(), 1);
    assert_eq!(updates[0].episode_number, 7);
    assert_eq!(updates[0].series_title, "Frieren");
}

#[test]
fn test_update_matcher_prefers_better_quality() {
    let lib: Library = Default::default();
    let results = vec![
        result_titled("[A] Frieren - 07 [720p].mkv"),
        result_titled("[B] Frieren - 07 [1080p].mkv"),
    ];
    let updates = check_series_updates(&lib, &frieren_series(), &results, &Vec::new());
    assert_eq!(updates.len(), 1);
    assert_eq!(updates[0].title, "[B] Frieren - 07 [1080p].mkv");
}

#[test]
fn test_update_matcher_skips_downloading_title() {
    let mut show = Show::new(
        String::from("frieren"),
        String::from("Frieren"),
        String::from("/media/Frieren"),
    );
    show.episodes.push(Episode::new(1, String::from("Frieren - 01.mkv")));
    let mut lib: Library = Default::default();
    lib.shows.push(show);
    let torrents = vec![ExistingTorrent {
        hash: String::from("h"),
        name: String::from("[subsplease] frieren - 07 [1080p].mkv"),
    }];
    let results = vec![result_titled("[SubsPlease] Frieren - 07 [1080p].mkv")];
    let updates = check_series_updates(&lib, &frieren_series(), &results, &torrents);
    assert_eq!(updates.len(), 0);
}

#[test]
fn test_update_matcher_group_and_quality_filters() {
    let lib: Library = Default::default();
    let mut series = frieren_series();
    series.filter_group = Some(String::from("SubsPlease"));
    series.filter_quality = Some(String::from("1080P"));
    let results = vec![
        result_titled("[OtherGroup] Frieren - 08 [1080p].mkv"),
        result_titled("[SubsPlease] Frieren - 08 [720p].mkv"),
        result_titled("[SubsPlease] Frieren - 08 [1080p].mkv"),
    ];
    let updates = check_series_updates(&lib, &series, &results, &Vec::new());
    assert_eq!(updates.len(), 1);
    assert_eq!(updates[0].title, "[SubsPlease] Frieren - 08 [1080p].mkv");
}

#[test]
fn test_library_watch_state() {
    let mut show = Show::new(
        String::from("monster"),
        String::from("Monster"),
        String::from("/media/Monster"),
    );
    show.episodes.push(Episode::new(1, String::from("Monster - 01.mkv")));
    show.episodes.push(Episode::new(2, String::from("Monster - 02.mkv")));
    let mut lib: Library = Default::default();
    lib.shows.push(show);
    assert!(lib.toggle_watched("monster", 1));
    assert!(lib.shows[0].episodes[0].watched);
    assert_eq!(lib.shows[0].episodes[0].last_position, 0);
    lib.update_position("monster", 2, 600);
    assert_eq!(lib.shows[0].episodes[1].last_position, 600);
    lib.mark_watched("monster", 2);
    assert!(lib.shows[0].episodes[1].watched);
    assert_eq!(lib.shows[0].episodes[1].last_position, 0);
    assert!(!lib.toggle_watched("missing", 1));
    assert!(!lib.is_archived("monster"));
}

#[test]
fn test_library_refresh_carries_watch_state() {
    let mut old_show = Show::new(
        String::from("monster"),
        String::from("Monster"),
        String::from("/media/Monster"),
    );
    let mut e1 = Episode::new(1, String::from("Monster - 01.mkv"));
    e1.watched = true;
    e1.last_position = 0;
    old_show.episodes.push(e1);
    let mut lib: Library = Default::default();
    lib.shows.push(old_show);
    let mut scanned = Show::new(
        String::from("monster"),
        String::from("Monster"),
        String::from("/media/Monster"),
    );
    scanned.episodes.push(Episode::new(1, String::from("Monster - 01.mkv")));
    scanned.episodes.push(Episode::new(2, String::from("Monster - 02.mkv")));
    lib.refresh(vec![scanned]);
    assert_eq!(lib.shows.len(), 1);
    assert!(lib.shows[0].episodes[0].watched);
    assert!(!lib.shows[0].episodes[1].watched);
}

#[test]
fn test_show_counters_and_next_unwatched() {
    let mut show = Show::new(
        String::from("x"),
        String::from("X"),
        String::from("/media/X"),
    );
    let mut e1 = Episode::new(1, String::from("01.mkv"));
    e1.watched = true;
    show.episodes.push(e1);
    show.episodes.push(Episode::new(2, String::from("02.mkv")));
    assert_eq!(show.episode_count(), 2);
    assert_eq!(show.watched_count(), 1);
    assert!(!show.is_seasonal());
    let next = show.next_unwatched().expect("one episode is unwatched");
    assert_eq!(next.number, 2);
    assert_eq!(show.get_episode(2).unwrap().filename, "02.mkv");
    assert!(show.get_episode(9).is_none());
    assert_eq!(show.all_episodes().len(), 2);
}

#[test]
fn test_episode_full_path() {
    let flat = Episode::new(1, String::from("01.mkv"));
    assert_eq!(flat.full_path(&String::from("/media/X")), "/media/X/01.mkv");
    let nested = Episode::with_relative_path(
        2,
        String::from("02.mkv"),
        String::from("Season 1"),
    );
    assert_eq!(
        nested.full_path(&String::from("/media/X")),
        "/media/X/Season 1/02.mkv"
    );
}

#[test]
fn test_scan_show_dir_builds_show() {
    let tree = DirTree {
        name: String::from("Sousou no Frieren"),
        path: String::from("/media/Sousou no Frieren"),
        files: vec![String::from("Frieren - 02.mkv"), String::from("Frieren - 01.mkv")],
        subdirs: vec![
            leaf(
                "Season 2",
                "/media/Sousou no Frieren/Season 2",
                &["Frieren S02 - 01.mkv"],
            ),
            leaf("OVA", "/media/Sousou no Frieren/OVA", &["Frieren OVA - 01.mkv"]),
        ],
    };
    let show = scan_show_dir(&tree).expect("videos were found");
    assert_eq!(show.id, "sousou-no-frieren");
    assert_eq!(show.title, "Sousou no Frieren");
    assert_eq!(show.total_episodes, Some(4));
    // Flat episodes come out sorted by parsed number.
    assert_eq!(show.episodes[0].number, 1);
    assert_eq!(show.episodes[1].number, 2);
    assert_eq!(show.seasons.len(), 1);
    assert_eq!(show.specials.len(), 1);
    let empty = scan_show_dir(&leaf("Empty", "/media/Empty", &["notes.txt"]));
    assert!(empty.is_none());
}

#[test]
fn test_scan_media_dir_sorts_and_includes_loose_files() {
    let tree = DirTree {
        name: String::from("media"),
        path: String::from("/media"),
        files: vec![String::from("zeta movie.mkv")],
        subdirs: vec![
            leaf("Monster", "/media/Monster", &["Monster - 01.mkv"]),
            leaf("Akira", "/media/Akira", &["Akira.mkv"]),
        ],
    };
    let shows = scan_media_dir(&tree);
    assert_eq!(shows.len(), 3);
    assert_eq!(shows[0].title, "Akira");
    assert_eq!(shows[1].title, "Monster");
    assert_eq!(shows[2].title, "zeta movie");
    assert_eq!(shows[2].episodes.len(), 1);
}

#[test]
fn test_collect_episodes_sorted_with_relative_path() {
    let d = leaf(
        "Season 1",
        "/media/X/Season 1",
        &["X - 03.mkv", "X - 01.mkv", "notes.txt", "X - 02.mkv"],
    );
    let eps = collect_episodes_from_dir(&d, &Some(String::from("Season 1")));
    assert_eq!(eps.len(), 3);
    assert_eq!(eps[0].number, 1);
    assert_eq!(eps[2].number, 3);
    assert_eq!(eps[0].relative_path, Some(String::from("Season 1")));
}
