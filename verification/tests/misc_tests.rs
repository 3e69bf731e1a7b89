//! Compression paths, notifications, torrent data, metadata import,
//! configuration and session-state helpers.

use miru_core::app_state::{format_episode_num, truncate_name, BatchMoveStrategy};
use miru_core::compression::{compressed_path, decompressed_path, is_compressed};
use miru_core::config::{expand_home, Config};
use miru_core::metadata::{import_watching_list, UserAnimeEntry};
use miru_core::models::TrackedSeries;
use miru_core::notify::Notifier;
use miru_core::nyaa::{
    enough_results, merge_search_results, title_indicates_batch, NyaaCategory, NyaaFilter,
    NyaaResult,
};
use miru_core::torrent::{
    classify_file, extract_anime_title, parse_qb_state, parse_transmission_status,
    torrent_file_entries, FileType, RawTorrentFile, TorrentState,
};

fn result_magnet(title: &str, magnet: &str) -> NyaaResult {
    NyaaResult {
        title: String::from(title),
        category: String::from("Anime"),
        size: String::from("700 MiB"),
        seeders: 10,
        leechers: 1,
        downloads: 3,
        torrent_url: String::from("https://example.invalid/t"),
        magnet_link: String::from(magnet),
        date: String::from("2024-01-01"),
        is_trusted: false,
        is_batch: false,
    }
}

#[test]
fn test_compression_paths() {
    assert!(is_compressed("/media/X/Episode 01.mkv.zst"));
    assert!(!is_compressed("/media/X/Episode 01.mkv"));
    assert!(!is_compressed("/media/X/.zst"));
    assert_eq!(
        compressed_path(&String::from("/media/X/Episode 01.mkv")),
        "/media/X/Episode 01.mkv.zst"
    );
    assert_eq!(
        decompressed_path("/media/X/Episode 01.mkv.zst"),
        Some(String::from("/media/X/Episode 01.mkv"))
    );
    assert_eq!(decompressed_path("/media/X/Episode 01.mkv"), None);
}

#[test]
fn test_notifier_gates_on_enabled() {
    let on = Notifier::new(true);
    let (summary, body) = on.new_episode("Frieren", 8).expect("enabled");
    assert_eq!(summary, "Frieren");
    assert_eq!(body, "Episode 8 is now available");
    let (summary, body) = on.download_complete("Frieren - 08.mkv").expect("enabled");
    assert_eq!(summary, "Download Complete");
    assert_eq!(body, "Frieren - 08.mkv");
    let off = Notifier::new(false);
    assert!(off.new_episode("Frieren", 8).is_none());
    assert!(off.download_complete("x").is_none());
}

#[test]
fn test_torrent_states() {
    assert_eq!(parse_qb_state("stalledDL"), TorrentState::Downloading);
    assert_eq!(parse_qb_state("pausedUP"), TorrentState::Paused);
    assert_eq!(parse_qb_state("checkingResumeData"), TorrentState::Checking);
    assert_eq!(parse_qb_state("missingFiles"), TorrentState::Error);
    assert_eq!(parse_qb_state("somethingElse"), TorrentState::Unknown);
    assert_eq!(parse_transmission_status(0), TorrentState::Paused);
    assert_eq!(parse_transmission_status(2), TorrentState::Checking);
    assert_eq!(parse_transmission_status(4), TorrentState::Downloading);
    assert_eq!(parse_transmission_status(6), TorrentState::Seeding);
    assert_eq!(parse_transmission_status(9), TorrentState::Unknown);
    assert_eq!(TorrentState::Seeding.as_str(), "Seeding");
}

#[test]
fn test_classify_and_torrent_entries() {
    assert_eq!(classify_file("Show/Episode 01.MKV"), FileType::Video);
    assert_eq!(classify_file("subs/episode.ass"), FileType::Subtitle);
    assert_eq!(classify_file("readme"), FileType::Other);
    let files = vec![
        RawTorrentFile {
            path: vec![String::from("Show"), String::from("01.mkv")],
            length: 700,
        },
        RawTorrentFile {
            path: vec![String::from("Show"), String::from("01.srt")],
            length: 20,
        },
    ];
    let entries = torrent_file_entries(String::from("Show"), None, Some(files));
    assert_eq!(entries.len(), 2);
    assert_eq!(entries[0].path, "Show/01.mkv");
    assert_eq!(entries[0].size, 700);
    assert_eq!(entries[0].file_type, FileType::Video);
    assert_eq!(entries[1].file_type, FileType::Subtitle);
    let single = torrent_file_entries(String::from("Movie.mkv"), Some(1400), None);
    assert_eq!(single.len(), 1);
    assert_eq!(single[0].path, "Movie.mkv");
    assert_eq!(single[0].size, 1400);
    assert_eq!(single[0].file_type, FileType::Video);
}

#[test]
fn test_title_batch_detection() {
    assert!(title_indicates_batch("[Batch] Frieren (01-28)"));
    assert!(title_indicates_batch("Frieren Complete 1080p"));
    assert!(title_indicates_batch("Frieren Season 1"));
    assert!(title_indicates_batch("Frieren S01"));
    assert!(title_indicates_batch("Frieren 01-28 END"));
    assert!(!title_indicates_batch("[SubsPlease] Frieren - 09 [1080p].mkv"));
}

#[test]
fn test_merge_results_dedups_by_magnet() {
    let mut acc = vec![result_magnet("a", "magnet:a")];
    let page = vec![
        result_magnet("a again", "magnet:a"),
        result_magnet("b", "magnet:b"),
        result_magnet("b again", "magnet:b"),
    ];
    let added = merge_search_results(&mut acc, page);
    assert_eq!(added, 1);
    assert_eq!(acc.len(), 2);
    assert_eq!(acc[1].title, "b");
    assert!(!enough_results(1, 10));
    assert!(enough_results(1, 15));
    assert!(enough_results(0, 30));
    assert!(!enough_results(0, 20));
}

#[test]
fn test_nyaa_selector_cycles() {
    assert_eq!(NyaaCategory::AllAnime.as_query_param(), "1_0");
    assert_eq!(NyaaCategory::AnimeEnglish.as_display(), "English-translated");
    assert_eq!(NyaaCategory::AnimeNonEnglish.next(), NyaaCategory::AllAnime);
    assert_eq!(NyaaFilter::NoFilter.as_query_param(), "0");
    assert_eq!(NyaaFilter::TrustedOnly.as_display(), "Trusted Only");
    assert_eq!(NyaaFilter::NoRemakes.next(), NyaaFilter::NoFilter);
    assert_eq!(NyaaCategory::default(), NyaaCategory::AllAnime);
    assert_eq!(NyaaFilter::default(), NyaaFilter::NoFilter);
}

#[test]
fn test_import_watching_list_skips_tracked() {
    let existing = vec![TrackedSeries {
        id: String::from("mal-10"),
        title: String::from("Monster"),
        query: String::from("Monster"),
        filter_group: None,
        filter_quality: None,
        min_episode: 0,
        season: 1,
        metadata_id: Some(10),
    }];
    let entries = vec![
        UserAnimeEntry {
            mal_id: 10,
            title: String::from("MONSTER"),
            num_episodes: Some(74),
            num_watched: 30,
        },
        UserAnimeEntry {
            mal_id: 52991,
            title: String::from("Sousou no Frieren"),
            num_episodes: Some(28),
            num_watched: 9,
        },
    ];
    let imported = import_watching_list(entries, &existing);
    assert_eq!(imported.len(), 1);
    assert_eq!(imported[0].id, "mal-52991");
    assert_eq!(imported[0].query, "Sousou no Frieren");
    assert_eq!(imported[0].min_episode, 10);
    assert_eq!(imported[0].metadata_id, Some(52991));
}

#[test]
fn test_config_defaults_and_expansion() {
    let c: Config = Default::default();
    assert_eq!(c.general.player, "mpv");
    assert_eq!(c.general.archive_mode, "ghost");
    assert_eq!(c.torrent.client, "transmission");
    assert_eq!(c.torrent.port, 9091);
    assert_eq!(c.ui.accent_color, "magenta");
    let home = Some(String::from("/home/someone"));
    assert_eq!(expand_home(&String::from("~"), &home), "/home/someone");
    assert_eq!(
        expand_home(&String::from("~/shows"), &home),
        "/home/someone/shows"
    );
    assert_eq!(expand_home(&String::from("/abs/path"), &home), "/abs/path");
    assert_eq!(expand_home(&String::from("~/shows"), &None), "~/shows");
}

#[test]
fn test_session_state_helpers() {
    assert_eq!(format_episode_num(7), "07");
    assert_eq!(format_episode_num(42), "42");
    assert_eq!(truncate_name("short", 10), "short");
    assert_eq!(truncate_name("a very long torrent name", 10), "a very ...");
    assert_eq!(BatchMoveStrategy::PreserveStructure.as_str(), "Preserve Structure");
    assert_eq!(
        BatchMoveStrategy::PreserveStructure.next(),
        BatchMoveStrategy::Flatten
    );
    assert_eq!(BatchMoveStrategy::Flatten.next(), BatchMoveStrategy::PreserveStructure);
}

#[test]
fn test_extract_anime_title() {
    assert_eq!(
        extract_anime_title("[SubsPlease] Sousou no Frieren - 09 (1080p) [ABCD1234].mkv"),
        "Sousou no Frieren"
    );
    assert_eq!(extract_anime_title("Show S01E05 [1080p]"), "Show");
    assert_eq!(extract_anime_title("Plain Movie Name"), "Plain Movie Name");
}
