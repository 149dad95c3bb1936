use rustganizer::config::Config;
use rustganizer::organizer::analyzer::{count_entries, get_majority_type};
use rustganizer::organizer::mover::{
    localized_user_dirs, merge_trees, split_children, FsNode, FsTree, MergeConflict,
};
use rustganizer::organizer::types::{Category, DirEntry, FileStats};

fn file_node(name: &str, len: u64) -> FsNode {
    FsNode { name: name.to_string(), tree: FsTree::File { len } }
}

fn dir_node(name: &str, entries: Vec<FsNode>) -> FsNode {
    FsNode { name: name.to_string(), tree: FsTree::Dir { entries } }
}

fn listing(names: &[&str]) -> Vec<DirEntry> {
    names
        .iter()
        .map(|n| DirEntry { name: n.to_string(), is_dir: false, is_file: true, len: Some(10) })
        .collect()
}

fn names_of(tree: &FsTree) -> Vec<String> {
    match tree {
        FsTree::Dir { entries } => entries.iter().map(|n| n.name.clone()).collect(),
        FsTree::File { .. } => Vec::new(),
    }
}

fn child<'a>(tree: &'a FsTree, name: &str) -> Option<&'a FsTree> {
    match tree {
        FsTree::Dir { entries } => entries.iter().find(|n| n.name == name).map(|n| &n.tree),
        FsTree::File { .. } => None,
    }
}

#[test]
fn test_trip_folder_classifies_as_image_majority() {
    let config = Config::default();
    let trip = listing(&["a.jpg", "b.jpg", "c.jpg"]);
    let stats = count_entries(&trip, &config);
    assert_eq!(stats.images, 3);
    assert_eq!(get_majority_type(&stats), Some("image"));
}

#[test]
fn test_merge_into_existing_trip_keeps_all_four_files() {
    let src = FsTree::Dir {
        entries: vec![file_node("a.jpg", 10), file_node("b.jpg", 10), file_node("c.jpg", 10)],
    };
    let dst = FsTree::Dir { entries: vec![file_node("old.jpg", 7)] };
    let merged = merge_trees(&src, dst).unwrap();
    let mut names = names_of(&merged);
    names.sort();
    assert_eq!(names, vec!["a.jpg", "b.jpg", "c.jpg", "old.jpg"]);
}

#[test]
fn test_merge_overwrites_same_named_file_with_source() {
    let src = FsTree::Dir { entries: vec![file_node("a.jpg", 10)] };
    let dst = FsTree::Dir { entries: vec![file_node("a.jpg", 7), file_node("keep.jpg", 3)] };
    let merged = merge_trees(&src, dst).unwrap();
    assert_eq!(names_of(&merged).len(), 2);
    match child(&merged, "a.jpg") {
        Some(FsTree::File { len }) => assert_eq!(*len, 10),
        _ => panic!("a.jpg should be a file"),
    }
    match child(&merged, "keep.jpg") {
        Some(FsTree::File { len }) => assert_eq!(*len, 3),
        _ => panic!("keep.jpg should be kept"),
    }
}

#[test]
fn test_merge_recurses_into_shared_directories() {
    let src = FsTree::Dir {
        entries: vec![dir_node("nested", vec![file_node("new.png", 5)])],
    };
    let dst = FsTree::Dir {
        entries: vec![dir_node("nested", vec![file_node("old.png", 4)])],
    };
    let merged = merge_trees(&src, dst).unwrap();
    let nested = child(&merged, "nested").unwrap();
    let mut names = names_of(nested);
    names.sort();
    assert_eq!(names, vec!["new.png", "old.png"]);
}

#[test]
fn test_merge_file_meeting_directory_is_a_conflict() {
    let src = FsTree::Dir { entries: vec![file_node("x", 1)] };
    let dst = FsTree::Dir { entries: vec![dir_node("x", vec![])] };
    assert!(matches!(merge_trees(&src, dst), Err(MergeConflict)));

    let src = FsTree::Dir { entries: vec![dir_node("y", vec![])] };
    let dst = FsTree::Dir { entries: vec![file_node("y", 1)] };
    assert!(matches!(merge_trees(&src, dst), Err(MergeConflict)));
}

#[test]
fn test_merge_moves_new_subtrees_whole() {
    let src = FsTree::Dir {
        entries: vec![dir_node("fresh", vec![file_node("a.mp3", 1), file_node("b.mp3", 2)])],
    };
    let dst = FsTree::Dir { entries: vec![] };
    let merged = merge_trees(&src, dst).unwrap();
    let fresh = child(&merged, "fresh").unwrap();
    assert_eq!(names_of(fresh).len(), 2);
}

#[test]
fn test_inbox_scenario_counts() {
    // A Downloads root with one file per category and a Desktop root with one
    // document; the planned relocations add up to music 1, videos 1,
    // images 1, docs 2.
    let config = Config::default();
    let downloads = listing(&["a.mp3", "b.mp4", "c.png", "d.pdf"]);
    let desktop = listing(&["e.txt"]);
    let (folders, dl_files, dl_empties) = split_children(&downloads, true);
    assert!(folders.is_empty() && dl_empties.is_empty());
    assert_eq!(dl_files.len(), 4);
    let mut total = count_entries(&downloads, &config);
    let desk = count_entries(&desktop, &config);
    total.add(&desk);
    assert_eq!(total.music, 1);
    assert_eq!(total.videos, 1);
    assert_eq!(total.images, 1);
    assert_eq!(total.docs, 2);
}

#[test]
fn test_destination_directories_for_scenario() {
    let config = Config::default();
    let dirs = localized_user_dirs("/home/u", "en", &config);
    assert_eq!(dirs.dir_for(Category::Music), "/home/u/Music");
    assert_eq!(dirs.dir_for(Category::Video), "/home/u/Videos");
    assert_eq!(dirs.dir_for(Category::Image), "/home/u/Pictures");
    assert_eq!(dirs.dir_for(Category::Docs), "/home/u/Documents");
    assert_eq!(dirs.downloads, "/home/u/Downloads");
    assert_eq!(dirs.desktop, "/home/u/Desktop");

    let dirs_es = localized_user_dirs("/home/u", "es", &config);
    assert_eq!(dirs_es.downloads, "/home/u/Descargas");
    assert_eq!(dirs_es.dir_for(Category::Image), "/home/u/Imágenes");
}

#[test]
fn test_zero_byte_file_is_deleted_not_relocated() {
    // Housekeeping: a zero-length file in Downloads is deleted, so nothing
    // of it reaches the classify-and-move path and the counters stay zero.
    let config = Config::default();
    let downloads = vec![DirEntry {
        name: "hollow.mp3".to_string(),
        is_dir: false,
        is_file: true,
        len: Some(0),
    }];
    let (folders, files, empties) = split_children(&downloads, true);
    assert!(folders.is_empty());
    assert!(files.is_empty());
    assert_eq!(empties.len(), 1);
    let moved = count_entries(&files, &config);
    let zero = FileStats::new();
    assert_eq!(moved.music, zero.music);
    assert_eq!(moved.videos, zero.videos);
    assert_eq!(moved.images, zero.images);
    assert_eq!(moved.docs, zero.docs);
}
