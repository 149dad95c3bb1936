use rustganizer::config::Config;
use rustganizer::organizer::analyzer::{classify_file_name, count_entries, get_majority_type};
use rustganizer::organizer::async_analyzer::AsyncAnalyzer;
use rustganizer::organizer::types::{Category, DirEntry, FileStats};

#[test]
fn test_get_majority_type() {
    let analyzer = AsyncAnalyzer::default();

    let stats = FileStats { music: 5, videos: 2, images: 1, docs: 0 };

    assert_eq!(analyzer.get_majority_type(&stats), Some("music"));

    let empty_stats = FileStats::default();
    assert_eq!(analyzer.get_majority_type(&empty_stats), None);
}

#[test]
fn test_majority_all_zero_is_none() {
    let stats = FileStats::new();
    assert_eq!(get_majority_type(&stats), None);
}

#[test]
fn test_majority_dominant_counter_wins() {
    let stats = FileStats { music: 0, videos: 1, images: 7, docs: 3 };
    assert_eq!(get_majority_type(&stats), Some("image"));
    let stats = FileStats { music: 0, videos: 0, images: 0, docs: 2 };
    assert_eq!(get_majority_type(&stats), Some("docs"));
}

#[test]
fn test_majority_tie_takes_priority_order() {
    let stats = FileStats { music: 3, videos: 3, images: 1, docs: 0 };
    assert_eq!(get_majority_type(&stats), Some("music"));
    let stats = FileStats { music: 0, videos: 2, images: 2, docs: 2 };
    assert_eq!(get_majority_type(&stats), Some("video"));
    let stats = FileStats { music: 0, videos: 0, images: 4, docs: 4 };
    assert_eq!(get_majority_type(&stats), Some("image"));
}

#[test]
fn test_classify_file_name_uses_extension() {
    let config = Config::default();
    let fx = config.get_file_extensions();
    assert_eq!(classify_file_name("song.mp3", fx), Some(Category::Music));
    assert_eq!(classify_file_name("Clip.MOV", fx), Some(Category::Video));
    assert_eq!(classify_file_name("photo.tar.jpeg", fx), Some(Category::Image));
    assert_eq!(classify_file_name("notes.txt", fx), Some(Category::Docs));
    assert_eq!(classify_file_name("archive.zip", fx), None);
    assert_eq!(classify_file_name("no_extension", fx), None);
    assert_eq!(classify_file_name(".bashrc", fx), None);
}

fn file(name: &str) -> DirEntry {
    DirEntry { name: name.to_string(), is_dir: false, is_file: true, len: Some(10) }
}

fn dir(name: &str) -> DirEntry {
    DirEntry { name: name.to_string(), is_dir: true, is_file: false, len: None }
}

#[test]
fn test_count_entries_counts_files_per_category() {
    let config = Config::default();
    let entries = vec![
        file("a.mp3"),
        file("b.ogg"),
        file("c.mp4"),
        file("d.png"),
        file("e.pdf"),
        file("f.txt"),
        file("g.unknown"),
        dir("subdir.mp3"),
    ];
    let stats = count_entries(&entries, &config);
    assert_eq!(stats.music, 2);
    assert_eq!(stats.videos, 1);
    assert_eq!(stats.images, 1);
    assert_eq!(stats.docs, 2);
}

#[test]
fn test_file_stats_add_sums_counters() {
    let mut a = FileStats { music: 1, videos: 2, images: 3, docs: 4 };
    let b = FileStats { music: 10, videos: 20, images: 30, docs: 40 };
    a.add(&b);
    assert_eq!(a.music, 11);
    assert_eq!(a.videos, 22);
    assert_eq!(a.images, 33);
    assert_eq!(a.docs, 44);
}
