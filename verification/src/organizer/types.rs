//! Core record types of the organizer.

use vstd::prelude::*;

verus! {

/// The unit of classification for files and whole directory trees.
///
/// Only these four categories take part in relocation; extensions outside
/// their tables are uncategorized and the item is left in place.
#[derive(Debug, Clone, Copy, PartialEq, Eq, Structural)]
pub enum Category {
    Music,
    Video,
    Image,
    Docs,
}

/// What a directory listing reports of one child entry: its name, its type
/// flags, and its length where the metadata could be read.
#[derive(Debug)]
pub struct DirEntry {
    pub name: String,
    pub is_dir: bool,
    pub is_file: bool,
    pub len: Option<u64>,
}

impl Clone for DirEntry {
    /// A field-for-field copy.
    fn clone(&self) -> (r: DirEntry)
        ensures
            r == *self,
    {
        DirEntry {
            name: self.name.clone(),
            is_dir: self.is_dir,
            is_file: self.is_file,
            len: self.len,
        }
    }
}

/// Per-category counters for one directory tree or one whole run.
///
/// A fresh record starts at all zeros; the analyzer and the run aggregator
/// only ever increase the counters.
#[derive(Debug, Clone)]
pub struct FileStats {
    pub music: usize,
    pub videos: usize,
    pub images: usize,
    pub docs: usize,
}

impl FileStats {
    /// Total of the four counters, as a mathematical integer.
    pub open spec fn total(&self) -> int {
        self.music + self.videos + self.images + self.docs
    }

    /// All four counters are zero.
    pub open spec fn is_zero(&self) -> bool {
        self.music == 0 && self.videos == 0 && self.images == 0 && self.docs == 0
    }

    pub fn new() -> (r: FileStats)
        ensures
            r.is_zero(),
    {
        FileStats { music: 0, videos: 0, images: 0, docs: 0 }
    }

    /// Sum another record into this one, counter by counter.
    pub fn add(&mut self, other: &FileStats)
        requires
            old(self).music + other.music <= usize::MAX,
            old(self).videos + other.videos <= usize::MAX,
            old(self).images + other.images <= usize::MAX,
            old(self).docs + other.docs <= usize::MAX,
        ensures
            final(self).music == old(self).music + other.music,
            final(self).videos == old(self).videos + other.videos,
            final(self).images == old(self).images + other.images,
            final(self).docs == old(self).docs + other.docs,
    {
        self.music = self.music + other.music;
        self.videos = self.videos + other.videos;
        self.images = self.images + other.images;
        self.docs = self.docs + other.docs;
    }
}

impl Default for FileStats {
    /// A fresh all-zero record.
    fn default() -> (r: FileStats)
        ensures
            r.is_zero(),
    {
        FileStats::new()
    }
}

} // verus!
