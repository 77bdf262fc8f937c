//! The chapter being read, in memory.
use vstd::prelude::*;
use crate::memory::{zeros, Room};
use crate::reader::{ReaderApp, ReaderModel};

verus! {

/// What has happened while a chapter is indexed.
#[derive(Clone, Copy, Debug, PartialEq, Eq, Structural)]
pub enum IndexEvent {
    /// The chapter is to be indexed.
    Begin,
    /// Paging was reset.
    PagingReset,
}

/// What is to be done to index a chapter.
#[derive(Clone, Copy, Debug, PartialEq, Eq, Structural)]
pub enum IndexAction {
    /// Reset paging: it starts over, with the first page of a new text.
    ResetPaging,
    /// The operation is over.
    Done,
}

/// What has happened while a chapter is loaded.
#[derive(Debug, PartialEq, Eq)]
pub enum LoadEvent<E> {
    /// The chapter is to be loaded.
    Begin,
    /// The outcome of [`LoadAction::Reserve`]: the memory, if there was any.
    Reserved(Option<Room>),
    /// The outcome of [`LoadAction::ReadChunk`] for the same `offset`: the
    /// buffer of the length asked for, as the read left it, and how much was
    /// read.
    ChunkRead { offset: u32, buf: Vec<u8>, read: Result<usize, E> },
}

/// What is to be done to load a chapter.
#[derive(Debug, PartialEq, Eq)]
pub enum LoadAction {
    /// Reserve memory for `size` bytes.
    Reserve { size: usize },
    /// Read from `offset` of the cache file of chapter `ch` in `dir` into a
    /// buffer of `len` bytes, which holds what is in memory from `offset` on.
    ReadChunk { dir: String, ch: u16, offset: u32, len: usize },
    /// The operation is over; the flag says whether the chapter is in memory.
    Done(bool),
}

impl ReaderModel {
    /// The size of the cached text of the chapter being read, or nothing where
    /// that chapter has no slot.
    pub open spec fn chapter_size(self) -> Option<int> {
        if self.chapter < self.chapter_sizes.len() {
            Some(self.chapter_sizes[self.chapter as int] as int)
        } else {
            None
        }
    }

    /// The state with the chapter being read as the text to page through, and
    /// no chapter in memory. A chapter without a slot counts as empty.
    pub open spec fn indexed(self) -> ReaderModel {
        ReaderModel {
            ch_cache: Seq::empty(),
            file_size: match self.chapter_size() {
                Some(size) => size as u32,
                None => 0,
            },
            ..self
        }
    }

    /// The chapter being read can be kept in memory.
    pub open spec fn loadable(self) -> bool {
        &&& self.is_epub
        &&& self.chapters_cached
        &&& self.chapter_size() matches Some(size)
        &&& 0 < size <= self.limits.chapter_cache_max
    }

    /// How much is read at once from `offset` of the chapter being read.
    pub open spec fn chunk_len(self, offset: int) -> int {
        let left = self.chapter_size()->0 - offset;
        if left <= self.limits.page_buf {
            left
        } else {
            self.limits.page_buf as int
        }
    }

    /// The chapter being read is on its way into memory.
    pub open spec fn loading(self) -> bool {
        self.chapter_size() matches Some(size) && self.ch_cache.len() == size
    }
}

/// `chunk` in the place of the bytes of `text` from `offset` on.
pub open spec fn overlay(text: Seq<u8>, offset: int, chunk: Seq<u8>) -> Seq<u8> {
    text.subrange(0, offset) + chunk + text.subrange(offset + chunk.len(), text.len() as int)
}

/// The chunk at `offset` is asked for.
pub open spec fn asks_for_chunk(pre: ReaderModel, offset: int, action: LoadAction) -> bool {
    &&& action matches LoadAction::ReadChunk { dir, ch, offset: from, len }
    &&& dir@ == pre.cache_dir
    &&& ch == pre.chapter
    &&& from == offset
    &&& len == pre.chunk_len(offset)
}

/// One step of indexing the chapter being read. Paging is reset first.
pub open spec fn index_step(
    pre: ReaderModel,
    event: IndexEvent,
    post: ReaderModel,
    action: IndexAction,
) -> bool {
    match event {
        IndexEvent::Begin => post == pre && action == IndexAction::ResetPaging,
        IndexEvent::PagingReset => post == pre.indexed() && action == IndexAction::Done,
    }
}

/// A chapter that is to be loaded begins. One that is in memory already, going by
/// its length, is left alone; otherwise the old text is dropped, and memory is
/// asked for.
pub open spec fn load_begins(pre: ReaderModel, post: ReaderModel, action: LoadAction) -> bool {
    if !pre.is_epub || !pre.chapters_cached || pre.chapter_size() is None {
        post == pre && action == LoadAction::Done(false)
    } else if !pre.loadable() {
        post == (ReaderModel { ch_cache: Seq::empty(), ..pre }) && action == LoadAction::Done(false)
    } else if pre.ch_cache.len() == pre.chapter_size()->0 {
        post == pre && action == LoadAction::Done(true)
    } else {
        &&& post == ReaderModel { ch_cache: Seq::empty(), ..pre }
        &&& action == LoadAction::Reserve { size: pre.chapter_size()->0 as usize }
    }
}

/// The chapter goes into the memory for it, if there is any.
pub open spec fn load_reserved(
    pre: ReaderModel,
    room: Option<Room>,
    post: ReaderModel,
    action: LoadAction,
) -> bool {
    match room {
        Some(room) => {
            &&& post == ReaderModel { ch_cache: zeros(room.spec_size()), ..pre }
            &&& asks_for_chunk(pre, 0, action)
        },
        None => post == pre && action == LoadAction::Done(false),
    }
}

/// What a [`LoadEvent::ChunkRead`] must meet: it is the outcome of a read that
/// was asked for, and the position after it is a number.
pub open spec fn chunk_fits<E>(
    pre: ReaderModel,
    offset: u32,
    buf: Seq<u8>,
    read: Result<usize, E>,
) -> bool {
    &&& pre.loading()
    &&& offset < pre.chapter_size()->0
    &&& buf.len() == pre.chunk_len(offset as int)
    &&& read matches Ok(n) ==> offset + n <= usize::MAX
}

/// A chunk has been read. Loading goes on behind it, ends at the end of the
/// chapter or of the file, and is given up where the read failed.
pub open spec fn chunk_step<E>(
    pre: ReaderModel,
    offset: u32,
    buf: Seq<u8>,
    read: Result<usize, E>,
    post: ReaderModel,
    action: LoadAction,
) -> bool {
    match read {
        Ok(n) => {
            &&& post == ReaderModel { ch_cache: overlay(pre.ch_cache, offset as int, buf), ..pre }
            &&& if n == 0 || offset + n >= pre.chapter_size()->0 {
                action == LoadAction::Done(true)
            } else {
                asks_for_chunk(pre, offset + n, action)
            }
        },
        Err(_) => {
            &&& post == ReaderModel { ch_cache: Seq::empty(), ..pre }
            &&& action == LoadAction::Done(false)
        },
    }
}

/// What a [`LoadEvent`] must meet. Memory that was reserved is that for the
/// chapter being read, and the chapter is not empty.
pub open spec fn load_event_fits<E>(pre: ReaderModel, event: LoadEvent<E>) -> bool {
    match event {
        LoadEvent::Reserved(Some(room)) => {
            &&& pre.chapter_size() == Some(room.spec_size() as int)
            &&& room.spec_size() > 0
        },
        LoadEvent::ChunkRead { offset, buf, read } => chunk_fits(pre, offset, buf@, read),
        _ => true,
    }
}

/// One step of loading a chapter.
pub open spec fn load_step<E>(
    pre: ReaderModel,
    event: LoadEvent<E>,
    post: ReaderModel,
    action: LoadAction,
) -> bool {
    match event {
        LoadEvent::Begin => load_begins(pre, post, action),
        LoadEvent::Reserved(room) => load_reserved(pre, room, post, action),
        LoadEvent::ChunkRead { offset, buf, read } => chunk_step(
            pre,
            offset,
            buf@,
            read,
            post,
            action,
        ),
    }
}

impl ReaderApp {
    /// Makes the chapter being read the text to page through, one step per call,
    /// starting with [`IndexEvent::Begin`]. The text in memory is dropped: it may
    /// belong to another chapter of the same length, and
    /// [`ReaderApp::try_cache_chapter`] goes by the length alone.
    pub fn epub_index_chapter(&mut self, event: IndexEvent) -> (action: IndexAction)
        ensures
            index_step(old(self)@, event, final(self)@, action),
    {
        match event {
            IndexEvent::Begin => IndexAction::ResetPaging,
            IndexEvent::PagingReset => {
                self.epub.ch_cache = Vec::new();
                let ch = self.epub.chapter as usize;
                self.file_size = if ch < self.epub.chapter_sizes.len() {
                    self.epub.chapter_sizes[ch]
                } else {
                    0
                };
                IndexAction::Done
            },
        }
    }

    /// Loads the chapter being read into memory, one step per call, starting
    /// with [`LoadEvent::Begin`].
    pub fn try_cache_chapter<E>(&mut self, event: LoadEvent<E>) -> (action: LoadAction)
        requires
            load_event_fits(old(self)@, event),
        ensures
            load_step(old(self)@, event, final(self)@, action),
    {
        match event {
            LoadEvent::Begin => {
                if !self.is_epub || !self.epub.chapters_cached {
                    return LoadAction::Done(false);
                }
                let ch = self.epub.chapter as usize;
                if ch >= self.epub.chapter_sizes.len() {
                    return LoadAction::Done(false);
                }
                let ch_size = self.epub.chapter_sizes[ch] as usize;
                if ch_size == 0 || ch_size > self.limits.chapter_cache_max {
                    self.epub.ch_cache = Vec::new();
                    return LoadAction::Done(false);
                }
                if self.epub.ch_cache.len() == ch_size {
                    return LoadAction::Done(true);
                }
                self.epub.ch_cache = Vec::new();
                LoadAction::Reserve { size: ch_size }
            },
            LoadEvent::Reserved(Some(room)) => {
                self.epub.ch_cache = room.into_zeros();
                self.ask_for_chunk(0)
            },
            LoadEvent::Reserved(None) => LoadAction::Done(false),
            LoadEvent::ChunkRead { offset, buf, read } => self.take_chunk(offset, buf, read),
        }
    }

    /// Asks for the chunk at `offset`.
    fn ask_for_chunk(&self, offset: u32) -> (action: LoadAction)
        requires
            self@.chapter_size() is Some,
            offset <= self@.chapter_size()->0,
        ensures
            asks_for_chunk(self@, offset as int, action),
    {
        let left = (self.epub.chapter_sizes[self.epub.chapter as usize] - offset) as usize;
        let len: usize = if left <= self.limits.page_buf {
            left
        } else {
            self.limits.page_buf
        };
        LoadAction::ReadChunk {
            dir: self.epub.cache_dir.clone(),
            ch: self.epub.chapter,
            offset,
            len,
        }
    }

    /// Takes in the chunk that was read at `offset`.
    fn take_chunk<E>(&mut self, offset: u32, buf: Vec<u8>, read: Result<usize, E>) -> (action:
        LoadAction)
        requires
            chunk_fits(old(self)@, offset, buf@, read),
        ensures
            chunk_step(old(self)@, offset, buf@, read, final(self)@, action),
    {
        match read {
            Ok(n) => {
                self.place_chunk(offset as usize, &buf);
                let ch_size = self.epub.chapter_sizes[self.epub.chapter as usize] as usize;
                let pos = offset as usize + n;
                if n == 0 || pos >= ch_size {
                    LoadAction::Done(true)
                } else {
                    self.ask_for_chunk(pos as u32)
                }
            },
            Err(_) => {
                self.epub.ch_cache = Vec::new();
                LoadAction::Done(false)
            },
        }
    }

    /// Puts `chunk` into the text in memory.
    fn place_chunk(&mut self, offset: usize, chunk: &Vec<u8>)
        requires
            offset + chunk@.len() <= old(self)@.ch_cache.len(),
        ensures
            final(self)@ == (ReaderModel {
                ch_cache: overlay(old(self)@.ch_cache, offset as int, chunk@),
                ..old(self)@
            }),
    {
        let ghost before = self@;
        let total = self.epub.ch_cache.len();
        for i in 0..chunk.len()
            invariant
                offset + chunk@.len() <= total,
                total == before.ch_cache.len(),
                self@ == (ReaderModel {
                    ch_cache: overlay(
                        before.ch_cache,
                        offset as int,
                        chunk@.subrange(0, i as int),
                    ),
                    ..before
                }),
        {
            self.epub.ch_cache[offset + i] = chunk[i];
            assert(self.epub.ch_cache@ =~= overlay(
                before.ch_cache,
                offset as int,
                chunk@.subrange(0, i + 1),
            ));
        }
        assert(chunk@.subrange(0, chunk@.len() as int) =~= chunk@);
    }
}

} // verus!
