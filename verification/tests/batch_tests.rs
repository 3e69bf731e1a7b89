//! Folder categorization and batch analysis.

use miru_core::batch::{
    analyze_batch, categorize_folder, is_batch_folder, BatchAnalysis, DirTree, FolderCategory,
    SpecialsInfo,
};

fn leaf(name: &str, path: &str, files: &[&str]) -> DirTree {
    DirTree {
        name: String::from(name),
        path: String::from(path),
        files: files.iter().map(|f| String::from(*f)).collect(),
        subdirs: Vec::new(),
    }
}

#[test]
fn test_categorize_season_folders() {
    assert_eq!(categorize_folder("Season 1"), FolderCategory::Season(1));
    assert_eq!(categorize_folder("Season 02"), FolderCategory::Season(2));
    assert_eq!(categorize_folder("S01"), FolderCategory::Season(1));
    assert_eq!(categorize_folder("S1"), FolderCategory::Season(1));
    assert_eq!(categorize_folder("Part 1"), FolderCategory::Season(1));
    assert_eq!(categorize_folder("Cour 2"), FolderCategory::Season(2));
}

#[test]
fn test_categorize_special_folders() {
    assert_eq!(categorize_folder("OVA"), FolderCategory::Ova);
    assert_eq!(categorize_folder("OVAs"), FolderCategory::Ova);
    assert_eq!(categorize_folder("Specials"), FolderCategory::Special);
    assert_eq!(categorize_folder("Movie"), FolderCategory::Movie);
    assert_eq!(categorize_folder("Movies"), FolderCategory::Movie);
    assert_eq!(categorize_folder("Extras"), FolderCategory::Extra);
    assert_eq!(categorize_folder("NCOP"), FolderCategory::Extra);
    assert_eq!(categorize_folder("NCED"), FolderCategory::Extra);
}

#[test]
fn test_categorize_unknown_folders() {
    assert_eq!(categorize_folder("Random Folder"), FolderCategory::Unknown);
    assert_eq!(categorize_folder("Subs"), FolderCategory::Unknown);
    assert_eq!(categorize_folder("Fonts"), FolderCategory::Unknown);
}

#[test]
fn test_analyze_batch_seasons_and_specials() {
    let tree = DirTree {
        name: String::from("Show"),
        path: String::from("/dl/Show"),
        files: vec![String::from("readme.txt"), String::from("Show - 00.mkv")],
        subdirs: vec![
            leaf("Season 2", "/dl/Show/Season 2", &["Show - 13.mkv", "Show - 14.mkv"]),
            leaf("Season 1", "/dl/Show/Season 1", &["Show - 01.mkv"]),
            leaf("OVAs", "/dl/Show/OVAs", &["Show - OVA1.mkv"]),
        ],
    };
    let a = analyze_batch(&tree);
    assert!(a.is_batch);
    assert_eq!(a.total_videos, 5);
    assert_eq!(a.loose_episodes, vec![String::from("/dl/Show/Show - 00.mkv")]);
    // Seasons come out sorted ascending by number.
    assert_eq!(a.seasons.len(), 2);
    assert_eq!(a.seasons[0].number, 1);
    assert_eq!(a.seasons[1].number, 2);
    assert_eq!(a.seasons[1].episodes.len(), 2);
    assert_eq!(a.specials.ovas.len(), 1);
}

#[test]
fn test_analyze_batch_recurses_into_unknown() {
    // One level of nesting: the seasons of an unknown subfolder are
    // merged upward.
    let nested = DirTree {
        name: String::from("Subfolder"),
        path: String::from("/dl/Show/Subfolder"),
        files: Vec::new(),
        subdirs: vec![leaf("Season 1", "/dl/Show/Subfolder/Season 1", &["01.mkv"])],
    };
    let tree = DirTree {
        name: String::from("Show"),
        path: String::from("/dl/Show"),
        files: Vec::new(),
        subdirs: vec![nested],
    };
    let a = analyze_batch(&tree);
    assert_eq!(a.seasons.len(), 1);
    assert_eq!(a.seasons[0].episodes, vec![String::from("/dl/Show/Subfolder/Season 1/01.mkv")]);
    // An unknown subfolder without seasons feeds the loose episodes.
    let plain = DirTree {
        name: String::from("Show"),
        path: String::from("/dl/Show"),
        files: Vec::new(),
        subdirs: vec![leaf("Stuff", "/dl/Show/Stuff", &["a.mkv", "b.mkv"])],
    };
    let b = analyze_batch(&plain);
    assert_eq!(b.seasons.len(), 0);
    assert_eq!(b.loose_episodes.len(), 2);
    assert!(!b.is_batch);
}

#[test]
fn test_analyze_batch_idempotent() {
    let tree = DirTree {
        name: String::from("Show"),
        path: String::from("/dl/Show"),
        files: vec![String::from("Show - 01.mkv"), String::from("Show - 02.mkv")],
        subdirs: vec![leaf("Specials", "/dl/Show/Specials", &["SP1.mkv"])],
    };
    let a = analyze_batch(&tree);
    let b = analyze_batch(&tree);
    assert_eq!(a.total_videos, b.total_videos);
    assert_eq!(a.seasons.len(), b.seasons.len());
    assert_eq!(a.specials.total_count(), b.specials.total_count());
    assert_eq!(a.loose_episodes, b.loose_episodes);
    assert_eq!(a.is_batch, b.is_batch);
}

#[test]
fn test_analysis_totals_add_up() {
    let tree = DirTree {
        name: String::from("Show"),
        path: String::from("/dl/Show"),
        files: vec![String::from("loose.mkv")],
        subdirs: vec![
            leaf("S01", "/dl/Show/S01", &["a.mkv", "b.mkv"]),
            leaf("Movies", "/dl/Show/Movies", &["movie.mkv"]),
        ],
    };
    let a = analyze_batch(&tree);
    let season_total: usize = a.seasons.iter().map(|s| s.episodes.len()).sum();
    assert_eq!(
        a.total_videos,
        a.loose_episodes.len() + season_total + a.specials.total_count()
    );
    assert_eq!(a.total_videos, 4);
}

#[test]
fn test_batch_threshold_of_four() {
    let three = leaf("Show", "/dl/Show", &["a.mkv", "b.mkv", "c.mkv"]);
    assert!(!analyze_batch(&three).is_batch);
    let four = leaf("Show", "/dl/Show", &["a.mkv", "b.mkv", "c.mkv", "d.mkv"]);
    assert!(analyze_batch(&four).is_batch);
}

#[test]
fn test_is_batch_folder_quick_check() {
    let with_sub = DirTree {
        name: String::from("Show"),
        path: String::from("/dl/Show"),
        files: Vec::new(),
        subdirs: vec![leaf("Season 1", "/dl/Show/Season 1", &[])],
    };
    assert!(is_batch_folder(&with_sub));
    assert!(!is_batch_folder(&leaf("Show", "/dl/Show", &["a.mkv"])));
    assert!(is_batch_folder(&leaf("Show", "/dl/Show", &["a.mkv", "b.mkv", "c.mkv", "d.mkv"])));
}

#[test]
fn test_summary_lists_nonempty_parts() {
    let tree = DirTree {
        name: String::from("Show"),
        path: String::from("/dl/Show"),
        files: vec![String::from("x.mkv")],
        subdirs: vec![
            leaf("Season 1", "/dl/Show/Season 1", &["a.mkv"]),
            leaf("OVA", "/dl/Show/OVA", &["o.mkv"]),
        ],
    };
    let a = analyze_batch(&tree);
    assert_eq!(a.summary(), "1 season(s), 1 OVA(s), 1 episode(s)");
    let empty = BatchAnalysis::empty();
    assert_eq!(empty.summary(), "Empty");
    assert!(!empty.is_batch);
    assert_eq!(empty.total_videos, 0);
}

#[test]
fn test_specials_info_counters() {
    let s = SpecialsInfo {
        ovas: vec![String::from("a")],
        movies: Vec::new(),
        specials: vec![String::from("b"), String::from("c")],
        extras: Vec::new(),
    };
    assert!(!s.is_empty());
    assert_eq!(s.total_count(), 3);
    let d: SpecialsInfo = Default::default();
    assert!(d.is_empty());
    assert_eq!(d.total_count(), 0);
}
