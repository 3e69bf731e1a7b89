//! Query parsing, search-string generation and result ranking.

use miru_core::nyaa::NyaaResult;
use miru_core::query::{
    build_search_query, format_episode, format_season, normalize_show_name, ordinal, parse_query,
    rank_results, score_result, smart_search,
};

fn result_titled(title: &str) -> NyaaResult {
    NyaaResult {
        title: String::from(title),
        category: String::from("Anime"),
        size: String::from("1.4 GiB"),
        seeders: 100,
        leechers: 5,
        downloads: 1000,
        torrent_url: String::from("https://example.invalid/t"),
        magnet_link: format!("magnet:?xt={}", title),
        date: String::from("2024-01-01"),
        is_trusted: true,
        is_batch: false,
    }
}

#[test]
fn test_parse_s01_ep09() {
    let parsed = parse_query("Frieren S01 Ep09");
    assert_eq!(parsed.show_name, "Frieren");
    assert_eq!(parsed.season, Some(1));
    assert_eq!(parsed.episode, Some(9));
}

#[test]
fn test_parse_s01e09() {
    let parsed = parse_query("Frieren S01E09");
    assert_eq!(parsed.show_name, "Frieren");
    assert_eq!(parsed.season, Some(1));
    assert_eq!(parsed.episode, Some(9));
    assert!(!parsed.is_batch_request);
}

#[test]
fn test_parse_lowercase() {
    let parsed = parse_query("frieren s1e5");
    assert_eq!(parsed.show_name, "frieren");
    assert_eq!(parsed.season, Some(1));
    assert_eq!(parsed.episode, Some(5));
}

#[test]
fn test_parse_with_spaces() {
    let parsed = parse_query("Sousou no Frieren S01 E09");
    assert_eq!(parsed.show_name, "Sousou no Frieren");
    assert_eq!(parsed.season, Some(1));
    assert_eq!(parsed.episode, Some(9));
}

#[test]
fn test_parse_1x09_format() {
    let parsed = parse_query("Breaking Bad 2x05");
    assert_eq!(parsed.show_name, "Breaking Bad");
    assert_eq!(parsed.season, Some(2));
    assert_eq!(parsed.episode, Some(5));
}

#[test]
fn test_parse_season_only() {
    let parsed = parse_query("One Piece S02");
    assert_eq!(parsed.show_name, "One Piece");
    assert_eq!(parsed.season, Some(2));
    assert_eq!(parsed.episode, None);
    assert!(parsed.is_batch_request);
}

#[test]
fn test_parse_episode_only() {
    let parsed = parse_query("Frieren Episode 9");
    assert_eq!(parsed.show_name, "Frieren");
    assert_eq!(parsed.season, Some(1));
    assert_eq!(parsed.episode, Some(9));
}

#[test]
fn test_parse_batch_keyword() {
    let parsed = parse_query("Frieren batch");
    assert!(parsed.is_batch_request);
}

#[test]
fn test_generate_s01_episode_queries() {
    let query = smart_search("Frieren S01E09");
    assert_eq!(query.primary, "Frieren 09");
    assert!(query.alternatives.contains(&"Frieren - 09".to_string()));
}

#[test]
fn test_generate_s02_episode_queries() {
    let query = smart_search("Attack on Titan S02E05");
    assert!(query.primary.contains("S02") || query.primary.contains("Season 2"));
}

#[test]
fn test_generate_batch_queries() {
    let query = smart_search("Frieren S01");
    assert!(query.parsed.is_batch_request);
    assert!(
        query.primary.contains("batch")
            || query.alternatives.iter().any(|q| q.contains("batch"))
    );
}

#[test]
fn test_score_exact_match() {
    let parsed = parse_query("Frieren S01E09");
    let score1 = score_result("[SubsPlease] Sousou no Frieren - 09 [1080p].mkv", &parsed);
    let score2 = score_result("[SubsPlease] Random Anime - 09 [1080p].mkv", &parsed);
    assert!(score1 > score2);
}

#[test]
fn test_score_penalizes_batch_for_episode_search() {
    let parsed = parse_query("Frieren S01E09");
    let score_single = score_result("[SubsPlease] Frieren - 09 [1080p].mkv", &parsed);
    let score_batch = score_result("[SubsPlease] Frieren - Batch (01-12) [1080p].mkv", &parsed);
    assert!(score_single > score_batch);
}

#[test]
fn test_ordinal() {
    assert_eq!(ordinal(1), "1st Season");
    assert_eq!(ordinal(2), "2nd Season");
    assert_eq!(ordinal(3), "3rd Season");
    assert_eq!(ordinal(4), "4th Season");
    assert_eq!(ordinal(11), "11th Season");
    assert_eq!(ordinal(12), "12th Season");
    assert_eq!(ordinal(13), "13th Season");
    assert_eq!(ordinal(21), "21st Season");
    assert_eq!(ordinal(22), "22nd Season");
}

#[test]
fn test_format_episode() {
    assert_eq!(format_episode(5), "05");
    assert_eq!(format_episode(9), "09");
    assert_eq!(format_episode(10), "10");
    assert_eq!(format_episode(100), "100");
}

#[test]
fn test_complex_show_names() {
    let parsed = parse_query("Kaguya-sama: Love is War S02E03");
    assert_eq!(parsed.show_name, "Kaguya-sama: Love is War");
    assert_eq!(parsed.season, Some(2));
    assert_eq!(parsed.episode, Some(3));
}

#[test]
fn test_just_show_name() {
    let query = smart_search("Frieren");
    assert_eq!(query.primary, "Frieren");
    assert!(!query.parsed.is_batch_request);
}

#[test]
fn test_format_season_and_normalize() {
    assert_eq!(format_season(2), "02");
    assert_eq!(format_season(12), "12");
    assert_eq!(normalize_show_name("  Sousou   no Frieren - "), "Sousou no Frieren");
    assert_eq!(normalize_show_name("Kaguya-sama:"), "Kaguya-sama");
}

#[test]
fn test_s02_batch_query_forms() {
    let query = smart_search("Attack on Titan S02");
    assert!(query.parsed.is_batch_request);
    assert_eq!(query.primary, "Attack on Titan S02 batch");
    assert!(query.alternatives.contains(&"Attack on Titan Season 2".to_string()));
}

#[test]
fn test_absolute_episode_estimate() {
    // Season 2 episode 5 with twelve episodes a season estimates
    // absolute episode 17.
    let query = smart_search("Show S02E05");
    assert!(query.alternatives.contains(&"Show 17".to_string()));
}

#[test]
fn test_rank_results_orders_by_score() {
    let parsed = parse_query("Frieren S01E09");
    let mut results = vec![
        result_titled("[SubsPlease] Frieren - Batch (01-12) [1080p].mkv"),
        result_titled("[SubsPlease] Sousou no Frieren - 09 [1080p].mkv"),
        result_titled("Unrelated show - 03 [480p].mkv"),
    ];
    rank_results(&mut results, &parsed);
    assert_eq!(results[0].title, "[SubsPlease] Sousou no Frieren - 09 [1080p].mkv");
    assert_eq!(results[2].title, "Unrelated show - 03 [480p].mkv");
}

#[test]
fn test_rank_results_stable_on_ties() {
    let parsed = parse_query("Frieren S01E09");
    let mut results = vec![
        result_titled("first copy of Frieren - 09 [1080p]"),
        result_titled("second copy of Frieren - 09 [1080p]"),
    ];
    rank_results(&mut results, &parsed);
    assert!(results[0].title.starts_with("first"));
    assert!(results[1].title.starts_with("second"));
}

#[test]
fn test_raw_query_kept_for_fallback() {
    let parsed = parse_query("   Frieren S01E09  ");
    assert_eq!(parsed.raw_query, "Frieren S01E09");
    let query = build_search_query("S01E09");
    // With no show name parsed, the raw query itself is the primary.
    assert_eq!(query.parsed.show_name, "");
    assert_eq!(query.primary, "S01E09");
    assert!(query.alternatives.is_empty());
}
