//! Filename and title parsing.

use miru_core::filename::{
    is_video_file, make_show_id, make_show_title, ordinal_to_u32, parse_episode_number,
    parse_quality, parse_release_group, parse_season_number, roman_to_u32,
};

#[test]
fn test_subgroup_format() {
    assert_eq!(
        parse_episode_number("[SubGroup] Show Name - 01 [1080p].mkv"),
        Some(1)
    );
    assert_eq!(
        parse_episode_number("[HorribleSubs] Monster - 74 [720p].mkv"),
        Some(74)
    );
}

#[test]
fn test_version_suffix() {
    assert_eq!(parse_episode_number("Show Name - 01v2.mkv"), Some(1));
    assert_eq!(parse_episode_number("Show - 05v3 [1080p].mkv"), Some(5));
}

#[test]
fn test_season_episode_format() {
    assert_eq!(parse_episode_number("Show.Name.S01E01.mkv"), Some(1));
    assert_eq!(parse_episode_number("Show Name S02E15.mp4"), Some(15));
}

#[test]
fn test_bare_number() {
    assert_eq!(parse_episode_number("01.mkv"), Some(1));
    assert_eq!(parse_episode_number("12 - Episode Title.mkv"), Some(12));
}

#[test]
fn test_episode_prefix() {
    assert_eq!(parse_episode_number("Show Episode 05.mkv"), Some(5));
    assert_eq!(parse_episode_number("Show Ep01.mkv"), Some(1));
    assert_eq!(parse_episode_number("Fate Strange Fake - E01.mkv"), Some(1));
    assert_eq!(parse_episode_number("Show - E02.mkv"), Some(2));
}

#[test]
fn test_is_video() {
    assert!(is_video_file("test.mkv"));
    assert!(is_video_file("Test.MKV"));
    assert!(is_video_file("video.mp4"));
    assert!(!is_video_file("subtitle.srt"));
    assert!(!is_video_file("readme.txt"));
}

#[test]
fn test_make_show_id() {
    assert_eq!(make_show_id("Monster"), "monster");
    assert_eq!(make_show_id("Attack on Titan"), "attack-on-titan");
    assert_eq!(make_show_id("Steins;Gate"), "steins-gate");
}

#[test]
fn test_season_s_prefix() {
    assert_eq!(
        parse_season_number("[SubsPlease] Oshi no Ko S02 - 05 [1080p].mkv"),
        Some(2)
    );
    assert_eq!(parse_season_number("Show.Name.S01E01.mkv"), Some(1));
    assert_eq!(parse_season_number("[Judas] Attack on Titan S03E12.mkv"), Some(3));
}

#[test]
fn test_season_text_pattern() {
    assert_eq!(
        parse_season_number("Oshi no Ko Season 2 - 05 [1080p].mkv"),
        Some(2)
    );
    assert_eq!(parse_season_number("Show Season 1 Episode 5.mkv"), Some(1));
}

#[test]
fn test_season_ordinal_pattern() {
    assert_eq!(
        parse_season_number("Oshi no Ko 2nd Season - 05 [1080p].mkv"),
        Some(2)
    );
    assert_eq!(parse_season_number("Attack on Titan 3rd Season E12.mkv"), Some(3));
}

#[test]
fn test_season_part_pattern() {
    assert_eq!(parse_season_number("Show Name Part 2 - 05 [1080p].mkv"), Some(2));
}

#[test]
fn test_season_none_when_absent() {
    assert_eq!(parse_season_number("[SubsPlease] Frieren - 09 [1080p].mkv"), None);
    assert_eq!(parse_season_number("Monster - 74 [720p].mkv"), None);
}

#[test]
fn test_season_cour_pattern() {
    assert_eq!(parse_season_number("Show Cour 2"), Some(2));
    assert_eq!(parse_season_number("Show Cour 02"), Some(2));
}

#[test]
fn test_season_ordinal_cour_pattern() {
    assert_eq!(parse_season_number("Show 2nd Cour"), Some(2));
    assert_eq!(parse_season_number("Show 3rd Cour"), Some(3));
}

#[test]
fn test_season_roman_numeral() {
    assert_eq!(parse_season_number("Show III"), Some(3));
    assert_eq!(parse_season_number("Show II"), Some(2));
    assert_eq!(parse_season_number("Show IV"), Some(4));
    assert_eq!(parse_season_number("Show X"), Some(10));
    assert_eq!(parse_season_number("Show I"), None);
}

#[test]
fn test_season_japanese_ki_marker() {
    assert_eq!(parse_season_number("Show 2期"), Some(2));
    assert_eq!(parse_season_number("Show 3期"), Some(3));
}

#[test]
fn test_season_ordinal_word() {
    assert_eq!(parse_season_number("Second Season"), Some(2));
    assert_eq!(parse_season_number("Third Cour"), Some(3));
    assert_eq!(parse_season_number("Fifth Season"), Some(5));
    assert_eq!(parse_season_number("Tenth Season"), Some(10));
    assert_eq!(parse_season_number("First Season"), Some(1));
}

#[test]
fn test_release_group_and_quality() {
    assert_eq!(
        parse_release_group("[SubsPlease] Frieren - 09 [1080p].mkv"),
        Some(String::from("SubsPlease"))
    );
    assert_eq!(parse_release_group("Frieren - 09.mkv"), None);
    assert_eq!(parse_release_group("[] Frieren.mkv"), None);
    assert_eq!(
        parse_quality("[SubsPlease] Frieren - 09 [1080P].mkv"),
        Some(String::from("1080p"))
    );
    assert_eq!(parse_quality("Show [4K].mkv"), Some(String::from("4k")));
    assert_eq!(parse_quality("Show - 09.mkv"), None);
}

#[test]
fn test_compressed_name_parses_like_plain() {
    assert_eq!(
        parse_episode_number("[SubsPlease] Frieren - 09 [1080p].mkv.zst"),
        Some(9)
    );
    assert!(is_video_file("Frieren - 09.mkv.zst"));
    assert!(!is_video_file("notes.txt.zst"));
}

#[test]
fn test_make_show_title_cleans_separators() {
    assert_eq!(make_show_title("Attack_on_Titan"), "Attack on Titan");
    assert_eq!(make_show_title("Sousou.no.Frieren"), "Sousou no Frieren");
    assert_eq!(make_show_title("  Spaced   Name  "), "Spaced Name");
}

#[test]
fn test_roman_and_ordinal_words() {
    assert_eq!(roman_to_u32("VIII"), Some(8));
    assert_eq!(roman_to_u32("IX"), Some(9));
    assert_eq!(roman_to_u32("I"), None);
    assert_eq!(ordinal_to_u32("Seventh"), Some(7));
    assert_eq!(ordinal_to_u32("TENTH"), Some(10));
    assert_eq!(ordinal_to_u32("eleventh"), None);
}

#[test]
fn test_episode_out_of_range_falls_through() {
    // Numbers outside (0, 1000) never come back: the cascade moves on,
    // and when nothing else matches the result is absent.
    assert_eq!(parse_episode_number("Show - 1200.mkv"), None);
    assert_eq!(parse_episode_number("Show - 0000.mkv"), None);
}
