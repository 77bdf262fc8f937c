//! The cache record: a small file beside the cached chapters that says which
//! archive they belong to and how long each one is. It is read when a book is
//! opened and written when its last chapter has been cached.
use vstd::prelude::*;
use crate::error::Error;
use crate::reader::{ReaderApp, ReaderModel};

verus! {

/// What has happened while the cache of a book is looked up.
#[derive(Debug, PartialEq, Eq)]
pub enum CheckEvent<E> {
    /// The book's cache is to be looked up.
    Begin,
    /// That many bytes of the record were read into the page buffer, or the
    /// record could not be read.
    RecordRead(Result<usize, E>),
    /// The record was parsed: the table of chapter sizes as the parser left it,
    /// and, where the record matches the book, how many chapters it lists.
    RecordParsed { sizes: Vec<u32>, count: Option<usize> },
    /// The cache directory is there, or could not be made.
    DirReady(Result<(), E>),
}

/// What is to be done to look up the cache of a book.
#[derive(Debug, PartialEq, Eq)]
pub enum CheckAction<E> {
    /// Read at most `cap` bytes from the start of the record in `dir` into the
    /// page buffer.
    ReadRecord { dir: String, cap: usize },
    /// Parse the first `len` bytes of the page buffer as the record of a book
    /// with this archive size, name hash and number of chapters, into the table
    /// of chapter sizes.
    ParseRecord { len: usize, archive_size: u32, name_hash: u32, spine_len: usize },
    /// Make sure that `dir` exists.
    EnsureDir { dir: String },
    /// The operation is over; the flag says whether the cache is there.
    Done(Result<bool, Error<E>>),
}

/// What has happened while the cache record is written.
#[derive(Debug, PartialEq, Eq)]
pub enum FinishEvent<E> {
    /// The record is to be written.
    Begin,
    /// The record was encoded.
    Encoded(Vec<u8>),
    /// The record was written, or could not be.
    Written(Result<(), E>),
}

/// What is to be done to write the cache record.
#[derive(Debug, PartialEq, Eq)]
pub enum FinishAction<E> {
    /// Encode the record of a book with this archive size and name hash whose
    /// chapters have these sizes.
    Encode { archive_size: u32, name_hash: u32, sizes: Vec<u32> },
    /// Write `data` as the record in `dir`.
    Write { dir: String, data: Vec<u8> },
    /// The operation is over.
    Done(Result<bool, Error<E>>),
}

/// What a [`CheckEvent`] must meet: no more was read than the page buffer
/// holds, the parser kept the table's length, and it lists no chapter beyond
/// the table.
pub open spec fn check_event_fits<E>(pre: ReaderModel, event: CheckEvent<E>) -> bool {
    match event {
        CheckEvent::RecordRead(Ok(n)) => n <= pre.limits.page_buf,
        CheckEvent::RecordParsed { sizes, count } => {
            &&& sizes@.len() == pre.chapter_sizes.len()
            &&& count matches Some(count) ==> count <= pre.ch_cached.len()
        },
        _ => true,
    }
}

/// The cache directory is asked for, in a state that is otherwise `pre`.
pub open spec fn asks_for_dir<E>(pre: ReaderModel, action: CheckAction<E>) -> bool {
    action matches CheckAction::EnsureDir { dir } && dir@ == pre.cache_dir
}

/// One step of looking up the cache of a book.
pub open spec fn check_step<E>(
    pre: ReaderModel,
    event: CheckEvent<E>,
    post: ReaderModel,
    action: CheckAction<E>,
) -> bool {
    match event {
        CheckEvent::Begin => {
            &&& post == pre
            &&& action matches CheckAction::ReadRecord { dir, cap }
            &&& dir@ == pre.cache_dir
            &&& cap == if pre.limits.meta_max <= pre.limits.page_buf {
                pre.limits.meta_max
            } else {
                pre.limits.page_buf
            }
        },
        CheckEvent::RecordRead(Ok(n)) => {
            &&& post == pre
            &&& action == CheckAction::<E>::ParseRecord {
                len: n,
                archive_size: pre.archive_size,
                name_hash: pre.name_hash,
                spine_len: pre.spine.len() as usize,
            }
        },
        CheckEvent::RecordRead(Err(_)) => {
            &&& post == pre
            &&& asks_for_dir(pre, action)
        },
        CheckEvent::RecordParsed { sizes, count: Some(count) } => {
            &&& post == ReaderModel {
                chapter_sizes: sizes@,
                ch_cached: Seq::new(
                    pre.ch_cached.len(),
                    |i: int| i < count || pre.ch_cached[i],
                ),
                chapters_cached: true,
                ..pre
            }
            &&& action == CheckAction::<E>::Done(Ok(true))
        },
        CheckEvent::RecordParsed { sizes, count: None } => {
            &&& post == ReaderModel { chapter_sizes: sizes@, ..pre }
            &&& asks_for_dir(pre, action)
        },
        CheckEvent::DirReady(Ok(_)) => {
            &&& post == ReaderModel { cache_chapter: 0, ..pre }
            &&& action == CheckAction::<E>::Done(Ok(false))
        },
        CheckEvent::DirReady(Err(e)) => {
            &&& post == pre
            &&& action == CheckAction::Done(Err(Error::Kernel(e)))
        },
    }
}

/// What a [`FinishEvent`] must meet: every chapter of the spine has a size.
pub open spec fn finish_event_fits<E>(pre: ReaderModel, event: FinishEvent<E>) -> bool {
    event is Begin ==> pre.spine.len() <= pre.chapter_sizes.len()
}

/// One step of writing the cache record.
pub open spec fn finish_step<E>(
    pre: ReaderModel,
    event: FinishEvent<E>,
    post: ReaderModel,
    action: FinishAction<E>,
) -> bool {
    match event {
        FinishEvent::Begin => {
            &&& post == pre
            &&& action matches FinishAction::Encode { archive_size, name_hash, sizes }
            &&& archive_size == pre.archive_size
            &&& name_hash == pre.name_hash
            &&& sizes@ == pre.chapter_sizes.subrange(0, pre.spine.len() as int)
        },
        FinishEvent::Encoded(record) => {
            &&& post == pre
            &&& action matches FinishAction::Write { dir, data }
            &&& dir@ == pre.cache_dir
            &&& data@ == record@
        },
        FinishEvent::Written(Ok(_)) => {
            &&& post == ReaderModel { chapters_cached: true, ..pre }
            &&& action == FinishAction::<E>::Done(Ok(false))
        },
        FinishEvent::Written(Err(e)) => {
            &&& post == pre
            &&& action == FinishAction::Done(Err(Error::Kernel(e)))
        },
    }
}

impl ReaderApp {
    /// Looks up the cache of the open book, one step per call, starting with
    /// [`CheckEvent::Begin`]. A record that cannot be read or does not match
    /// counts as no cache: the cache directory is then made, and the background
    /// scan starts over.
    pub fn epub_check_cache<E>(&mut self, event: CheckEvent<E>) -> (action: CheckAction<E>)
        requires
            check_event_fits(old(self)@, event),
        ensures
            old(self)@.wf() ==> final(self)@.wf(),
            check_step(old(self)@, event, final(self)@, action),
    {
        match event {
            CheckEvent::Begin => {
                let cap: usize = if self.limits.meta_max <= self.limits.page_buf {
                    self.limits.meta_max
                } else {
                    self.limits.page_buf
                };
                CheckAction::ReadRecord { dir: self.epub.cache_dir.clone(), cap }
            },
            CheckEvent::RecordRead(Ok(n)) => CheckAction::ParseRecord {
                len: n,
                archive_size: self.epub.archive_size,
                name_hash: self.epub.name_hash,
                spine_len: self.epub.spine.len(),
            },
            CheckEvent::RecordRead(Err(_)) => {
                CheckAction::EnsureDir { dir: self.epub.cache_dir.clone() }
            },
            CheckEvent::RecordParsed { sizes, count: Some(count) } => {
                self.epub.chapter_sizes = sizes;
                self.epub.chapters_cached = true;
                self.mark_cached(count);
                CheckAction::Done(Ok(true))
            },
            CheckEvent::RecordParsed { sizes, count: None } => {
                self.epub.chapter_sizes = sizes;
                CheckAction::EnsureDir { dir: self.epub.cache_dir.clone() }
            },
            CheckEvent::DirReady(Ok(_)) => {
                self.epub.cache_chapter = 0;
                CheckAction::Done(Ok(false))
            },
            CheckEvent::DirReady(Err(e)) => CheckAction::Done(Err(Error::Kernel(e))),
        }
    }

    /// Marks the first `count` chapters as cached.
    fn mark_cached(&mut self, count: usize)
        requires
            count <= old(self)@.ch_cached.len(),
        ensures
            final(self)@ == (ReaderModel {
                ch_cached: Seq::new(
                    old(self)@.ch_cached.len(),
                    |i: int| i < count || old(self)@.ch_cached[i],
                ),
                ..old(self)@
            }),
    {
        let ghost before = self@;
        for i in 0..count
            invariant
                count <= before.ch_cached.len(),
                self@ == (ReaderModel {
                    ch_cached: Seq::new(
                        before.ch_cached.len(),
                        |j: int| j < i || before.ch_cached[j],
                    ),
                    ..before
                }),
        {
            self.epub.ch_cached[i] = true;
        }
    }

    /// Writes the record that completes the cache, one step per call, starting
    /// with [`FinishEvent::Begin`].
    pub fn epub_finish_cache<E>(&mut self, event: FinishEvent<E>) -> (action: FinishAction<E>)
        requires
            finish_event_fits(old(self)@, event),
        ensures
            old(self)@.wf() ==> final(self)@.wf(),
            finish_step(old(self)@, event, final(self)@, action),
    {
        match event {
            FinishEvent::Begin => {
                let mut sizes = self.epub.chapter_sizes.clone();
                assert(sizes@ =~= self.epub.chapter_sizes@);
                sizes.truncate(self.epub.spine.len());
                FinishAction::Encode {
                    archive_size: self.epub.archive_size,
                    name_hash: self.epub.name_hash,
                    sizes,
                }
            },
            FinishEvent::Encoded(record) => FinishAction::Write {
                dir: self.epub.cache_dir.clone(),
                data: record,
            },
            FinishEvent::Written(Ok(_)) => {
                self.epub.chapters_cached = true;
                FinishAction::Done(Ok(false))
            },
            FinishEvent::Written(Err(e)) => FinishAction::Done(Err(Error::Kernel(e))),
        }
    }
}

} // verus!
