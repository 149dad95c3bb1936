//! Folder analysis: counting categorized files in a directory tree and
//! picking the majority category.

use vstd::prelude::*;
use crate::config::{spec_category_tag, spec_classify4, Config, FileExtensions};
use crate::organizer::types::{Category, DirEntry, FileStats};
use crate::text::{extension_of, lower_of, lowercase, opt_str_view, spec_extension};

verus! {

/// The larger of two integers.
pub open spec fn spec_max2(a: int, b: int) -> int {
    if a >= b {
        a
    } else {
        b
    }
}

/// The largest of the four counters.
pub open spec fn spec_max_count(s: FileStats) -> int {
    spec_max2(spec_max2(s.music as int, s.videos as int), spec_max2(s.images as int, s.docs as int))
}

/// The majority category: the category with the strictly highest count, ties
/// broken by the fixed priority order music, video, image, docs; nothing when
/// every counter is zero.
pub open spec fn spec_majority(s: FileStats) -> Option<Category> {
    let m = spec_max_count(s);
    if m == 0 {
        None
    } else if s.music == m {
        Some(Category::Music)
    } else if s.videos == m {
        Some(Category::Video)
    } else if s.images == m {
        Some(Category::Image)
    } else {
        Some(Category::Docs)
    }
}

/// The tag of the majority category, if any.
pub open spec fn spec_majority_name(s: FileStats) -> Option<Seq<char>> {
    match spec_majority(s) {
        None => None,
        Some(c) => Some(spec_category_tag(c)),
    }
}

/// The majority category of a record, as a `Category` value.
pub fn majority_category(stats: &FileStats) -> (r: Option<Category>)
    ensures
        r == spec_majority(*stats),
{
    let mut m = stats.music;
    if stats.videos > m {
        m = stats.videos;
    }
    if stats.images > m {
        m = stats.images;
    }
    if stats.docs > m {
        m = stats.docs;
    }
    if m == 0 {
        None
    } else if stats.music == m {
        Some(Category::Music)
    } else if stats.videos == m {
        Some(Category::Video)
    } else if stats.images == m {
        Some(Category::Image)
    } else {
        Some(Category::Docs)
    }
}

/// The tag of the majority category in `stats`, or nothing when every counter
/// is zero.
pub fn get_majority_type(stats: &FileStats) -> (r: Option<&'static str>)
    ensures
        opt_str_view(r) == spec_majority_name(*stats),
{
    match majority_category(stats) {
        None => None,
        Some(Category::Music) => Some("music"),
        Some(Category::Video) => Some("video"),
        Some(Category::Image) => Some("image"),
        Some(Category::Docs) => Some("docs"),
    }
}

/// The counter of one category.
pub open spec fn spec_cat_count(s: FileStats, c: Category) -> int {
    match c {
        Category::Music => s.music as int,
        Category::Video => s.videos as int,
        Category::Image => s.images as int,
        Category::Docs => s.docs as int,
    }
}

/// The fixed priority order of the categories, earliest first.
pub open spec fn spec_priority_index(c: Category) -> int {
    match c {
        Category::Music => 0,
        Category::Video => 1,
        Category::Image => 2,
        Category::Docs => 3,
    }
}

/// An all-zero record has no majority.
pub proof fn lemma_majority_all_zero(s: FileStats)
    requires
        s.is_zero(),
    ensures
        spec_majority(s) is None,
{
}

/// A category whose counter strictly exceeds every other counter is the
/// majority.
pub proof fn lemma_majority_dominant(s: FileStats, c: Category)
    requires
        forall|o: Category| o != c ==> spec_cat_count(s, o) < spec_cat_count(s, c),
    ensures
        spec_majority(s) == Some(c),
{
    assert(c != Category::Music ==> spec_cat_count(s, Category::Music) < spec_cat_count(s, c));
    assert(c != Category::Video ==> spec_cat_count(s, Category::Video) < spec_cat_count(s, c));
    assert(c != Category::Image ==> spec_cat_count(s, Category::Image) < spec_cat_count(s, c));
    assert(c != Category::Docs ==> spec_cat_count(s, Category::Docs) < spec_cat_count(s, c));
}

/// On a tie between two categories at the maximum, with every other category
/// strictly below, the one earlier in the priority order wins.
pub proof fn lemma_majority_tie(s: FileStats, c1: Category, c2: Category)
    requires
        spec_priority_index(c1) < spec_priority_index(c2),
        spec_cat_count(s, c1) == spec_cat_count(s, c2),
        spec_cat_count(s, c1) > 0,
        forall|o: Category| o != c1 && o != c2 ==> spec_cat_count(s, o) < spec_cat_count(s, c1),
    ensures
        spec_majority(s) == Some(c1),
{
    assert(c1 != Category::Music && c2 != Category::Music ==> spec_cat_count(s, Category::Music)
        < spec_cat_count(s, c1));
    assert(c1 != Category::Video && c2 != Category::Video ==> spec_cat_count(s, Category::Video)
        < spec_cat_count(s, c1));
    assert(c1 != Category::Image && c2 != Category::Image ==> spec_cat_count(s, Category::Image)
        < spec_cat_count(s, c1));
    assert(c1 != Category::Docs && c2 != Category::Docs ==> spec_cat_count(s, Category::Docs)
        < spec_cat_count(s, c1));
}

/// Category of a file, judged by its name's extension after case folding.
pub open spec fn spec_file_category(name: Seq<char>, fx: FileExtensions) -> Option<Category> {
    match spec_extension(name) {
        None => None,
        Some(e) => spec_classify4(lower_of(e), fx),
    }
}

/// Classifies one file name by its extension, case-insensitively.
pub fn classify_file_name(name: &str, fx: &FileExtensions) -> (r: Option<Category>)
    ensures
        r == spec_file_category(name@, *fx),
{
    match extension_of(name) {
        None => None,
        Some(e) => {
            let folded = lowercase(e);
            crate::config::classify_folded(folded.as_str(), fx)
        },
    }
}

/// How many of the first entries are files of category `c`.
pub open spec fn spec_count(s: Seq<DirEntry>, fx: FileExtensions, c: Category) -> int
    decreases s.len(),
{
    if s.len() == 0 {
        0
    } else {
        spec_count(s.drop_last(), fx, c) + if s.last().is_file && spec_file_category(
            s.last().name@,
            fx,
        ) == Some(c) {
            1int
        } else {
            0int
        }
    }
}

proof fn lemma_count_bounded(s: Seq<DirEntry>, fx: FileExtensions, c: Category)
    ensures
        0 <= spec_count(s, fx, c) <= s.len(),
    decreases s.len(),
{
    if s.len() > 0 {
        lemma_count_bounded(s.drop_last(), fx, c);
    }
}

/// Counts the file entries of a listing per category.
pub fn count_entries(entries: &Vec<DirEntry>, config: &Config) -> (r: FileStats)
    ensures
        r.music == spec_count(entries@, config.file_extensions, Category::Music),
        r.videos == spec_count(entries@, config.file_extensions, Category::Video),
        r.images == spec_count(entries@, config.file_extensions, Category::Image),
        r.docs == spec_count(entries@, config.file_extensions, Category::Docs),
{
    let ghost fx = config.file_extensions;
    let mut r = FileStats::new();
    let mut i: usize = 0;
    proof {
        assert(entries@.take(0) =~= Seq::<DirEntry>::empty());
    }
    while i < entries.len()
        invariant
            i <= entries@.len(),
            fx == config.file_extensions,
            r.music == spec_count(entries@.take(i as int), fx, Category::Music),
            r.videos == spec_count(entries@.take(i as int), fx, Category::Video),
            r.images == spec_count(entries@.take(i as int), fx, Category::Image),
            r.docs == spec_count(entries@.take(i as int), fx, Category::Docs),
        decreases entries@.len() - i,
    {
        proof {
            lemma_count_bounded(entries@.take(i as int), fx, Category::Music);
            lemma_count_bounded(entries@.take(i as int), fx, Category::Video);
            lemma_count_bounded(entries@.take(i as int), fx, Category::Image);
            lemma_count_bounded(entries@.take(i as int), fx, Category::Docs);
            assert(entries@.take(i as int).len() == i);
            assert(entries@.take(i as int + 1).drop_last() =~= entries@.take(i as int));
            assert(entries@.take(i as int + 1).last() == entries@[i as int]);
        }
        let entry = &entries[i];
        if entry.is_file {
            match classify_file_name(entry.name.as_str(), &config.file_extensions) {
                Some(Category::Music) => {
                    r.music = r.music + 1;
                },
                Some(Category::Video) => {
                    r.videos = r.videos + 1;
                },
                Some(Category::Image) => {
                    r.images = r.images + 1;
                },
                Some(Category::Docs) => {
                    r.docs = r.docs + 1;
                },
                None => {},
            }
        }
        i = i + 1;
    }
    proof {
        assert(entries@.take(entries@.len() as int) =~= entries@);
    }
    r
}

/// Relies on `walkdir::WalkDir`: walks the tree under `path`, skipping
/// entries it cannot read, and reduces each remaining entry to its file
/// name, its type flags and its length.  What comes back depends on the
/// state of the disk.
#[verifier::external_body]
fn walk_entries(path: &str) -> (r: Vec<DirEntry>)
{
    let mut v = Vec::new();
    for entry in walkdir::WalkDir::new(path).into_iter().filter_map(|e| e.ok()) {
        v.push(DirEntry {
            name: entry.file_name().to_string_lossy().into_owned(),
            is_dir: entry.file_type().is_dir(),
            is_file: entry.file_type().is_file(),
            len: entry.metadata().ok().map(|m| m.len()),
        });
    }
    v
}

/// Walks the tree under `path` and counts categorized files.  The returned
/// record is the per-category count of whatever listing the walk produced.
pub fn analyze_folder(path: &str, config: &Config) -> (r: FileStats)
    ensures
        exists|entries: Seq<DirEntry>|
            {
                &&& r.music == spec_count(entries, config.file_extensions, Category::Music)
                &&& r.videos == spec_count(entries, config.file_extensions, Category::Video)
                &&& r.images == spec_count(entries, config.file_extensions, Category::Image)
                &&& r.docs == spec_count(entries, config.file_extensions, Category::Docs)
            },
{
    let entries = walk_entries(path);
    let r = count_entries(&entries, config);
    proof {
        let witness = entries@;
        assert(r.music == spec_count(witness, config.file_extensions, Category::Music));
    }
    r
}

} // verus!
