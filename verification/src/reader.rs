//! The reader's state, as far as opening and caching a book reads or writes it.
use vstd::prelude::*;
use vstd::utf8::{decode_utf8, valid_utf8};
use crate::text::utf8_text;

verus! {

/// What the background task does next.
#[derive(Clone, Copy, Debug, PartialEq, Eq, Structural)]
pub enum BgCacheState {
    /// Cache chapters.
    CacheChapter,
    /// Wait for an image close to the reading position, then cache chapters.
    WaitNearbyImage,
    /// Look for an image to decode.
    CacheImage,
    /// Wait for a decoded image, then look for the next one.
    WaitImage,
    /// Nothing is left to do.
    Idle,
}

/// Sizes that are fixed when the reader is built.
#[derive(Clone, Copy, Debug, PartialEq, Eq, Structural)]
pub struct Limits {
    /// How much of the end of an archive is searched for its directory.
    pub eocd_tail: usize,
    /// The size of the page buffer, which every read goes through.
    pub page_buf: usize,
    /// The largest chapter that is kept in memory.
    pub chapter_cache_max: usize,
    /// The largest cache record.
    pub meta_max: usize,
}

/// The open book.
#[derive(Debug)]
pub struct EpubState {
    /// The archive's size in bytes.
    pub archive_size: u32,
    /// The hash of the archive's file name.
    pub name_hash: u32,
    /// The directory that holds the book's cache.
    pub cache_dir: String,
    /// For each chapter, in reading order, its entry in the archive.
    pub spine: Vec<usize>,
    /// The buffer that holds the title from the book's metadata.
    pub meta_title: Vec<u8>,
    /// How much of `meta_title` is in use.
    pub meta_title_len: usize,
    /// The chapter being read.
    pub chapter: u16,
    /// For each chapter slot, the size of its cached text.
    pub chapter_sizes: Vec<u32>,
    /// For each chapter slot, whether its text is cached.
    pub ch_cached: Vec<bool>,
    /// Whether the cache as a whole is complete.
    pub chapters_cached: bool,
    /// The text of the chapter being read, or nothing.
    pub ch_cache: Vec<u8>,
    /// How far the sequential scan of the background task has come.
    pub cache_chapter: u16,
    pub bg_cache: BgCacheState,
    /// The chapter in which the search for images stands.
    pub img_cache_ch: u16,
    /// The place in that chapter.
    pub img_cache_offset: u32,
    /// Whether the search has passed the end of the book.
    pub img_scan_wrapped: bool,
}

/// The reader.
#[derive(Debug)]
pub struct ReaderApp {
    pub limits: Limits,
    /// The bytes of the open file's name.
    pub name: Vec<u8>,
    pub is_epub: bool,
    /// The buffer that holds the title on display.
    pub title: Vec<u8>,
    /// How much of `title` is in use.
    pub title_len: usize,
    /// The size of the text being paged through.
    pub file_size: u32,
    pub epub: EpubState,
}

/// The state of a [`ReaderApp`] as a mathematical value.
#[verifier::ext_equal]
pub struct ReaderModel {
    pub limits: Limits,
    pub name: Seq<u8>,
    pub is_epub: bool,
    pub title: Seq<u8>,
    pub title_len: usize,
    pub file_size: u32,
    pub archive_size: u32,
    pub name_hash: u32,
    pub cache_dir: Seq<char>,
    pub spine: Seq<usize>,
    pub meta_title: Seq<u8>,
    pub meta_title_len: usize,
    pub chapter: u16,
    pub chapter_sizes: Seq<u32>,
    pub ch_cached: Seq<bool>,
    pub chapters_cached: bool,
    pub ch_cache: Seq<u8>,
    pub cache_chapter: u16,
    pub bg_cache: BgCacheState,
    pub img_cache_ch: u16,
    pub img_cache_offset: u32,
    pub img_scan_wrapped: bool,
}

impl ReaderModel {
    /// Every chapter of the spine has a slot in the two chapter tables, and a
    /// number.
    pub open spec fn wf(self) -> bool {
        &&& self.spine.len() <= self.chapter_sizes.len()
        &&& self.spine.len() <= self.ch_cached.len()
        &&& self.spine.len() <= u16::MAX
    }

    /// The open file's name as text; a name that is not UTF-8 counts as empty.
    pub open spec fn file_name(self) -> Seq<char> {
        if valid_utf8(self.name) {
            decode_utf8(self.name)
        } else {
            Seq::empty()
        }
    }

    /// Chapter `ch` is in the book and its text is cached.
    pub open spec fn has_chapter(self, ch: int) -> bool {
        0 <= ch < self.spine.len() && self.ch_cached[ch]
    }
}

impl View for ReaderApp {
    type V = ReaderModel;

    open spec fn view(&self) -> ReaderModel {
        ReaderModel {
            limits: self.limits,
            name: self.name@,
            is_epub: self.is_epub,
            title: self.title@,
            title_len: self.title_len,
            file_size: self.file_size,
            archive_size: self.epub.archive_size,
            name_hash: self.epub.name_hash,
            cache_dir: self.epub.cache_dir@,
            spine: self.epub.spine@,
            meta_title: self.epub.meta_title@,
            meta_title_len: self.epub.meta_title_len,
            chapter: self.epub.chapter,
            chapter_sizes: self.epub.chapter_sizes@,
            ch_cached: self.epub.ch_cached@,
            chapters_cached: self.epub.chapters_cached,
            ch_cache: self.epub.ch_cache@,
            cache_chapter: self.epub.cache_chapter,
            bg_cache: self.epub.bg_cache,
            img_cache_ch: self.epub.img_cache_ch,
            img_cache_offset: self.epub.img_cache_offset,
            img_scan_wrapped: self.epub.img_scan_wrapped,
        }
    }
}

impl ReaderApp {
    /// Whether the state meets [`ReaderModel::wf`], which caching chapters in the
    /// background asks for.
    pub fn is_wf(&self) -> (ok: bool)
        ensures
            ok == self@.wf(),
    {
        self.epub.spine.len() <= self.epub.chapter_sizes.len()
            && self.epub.spine.len() <= self.epub.ch_cached.len()
            && self.epub.spine.len() <= u16::MAX as usize
    }

    /// The open file's name as text; a name that is not UTF-8 counts as empty.
    pub fn file_name(&self) -> (name: String)
        ensures
            name@ == self@.file_name(),
    {
        match utf8_text(&self.name) {
            Some(text) => text,
            None => String::new(),
        }
    }
}

} // verus!
