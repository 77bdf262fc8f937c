//! Caching one chapter: its old text is cut off, then the entry is streamed.
use vstd::prelude::*;
use crate::error::Error;
use crate::reader::{ReaderApp, ReaderModel};

verus! {

/// What has happened to the chapter being cached.
#[derive(Debug, PartialEq, Eq)]
pub enum ChapterEvent<E> {
    /// The chapter is to be cached.
    Begin,
    /// Its cache file was emptied, or could not be.
    Truncated(Result<(), E>),
    /// Its entry was streamed into the cache file, and gave that much text, or
    /// the streamer failed with a message.
    Streamed(Result<u32, &'static str>),
}

/// What is to be done for the chapter being cached.
#[derive(Debug, PartialEq, Eq)]
pub enum ChapterAction<E> {
    /// Look up the archive entry `entry`, then empty the cache file of chapter
    /// `ch` in `dir`.
    Truncate { dir: String, ch: u16, entry: usize },
    /// Stream the text of `entry` of the archive `name` to the end of the cache
    /// file of chapter `ch` in `dir`.
    Stream { name: String, dir: String, ch: u16, entry: usize },
    /// The operation is over.
    Done(Result<(), Error<E>>),
}

/// What a [`ChapterEvent`] must meet: a chapter of the book has a slot in the
/// tables, as far as the step looks there, and what happened happened to a
/// chapter of the book. Any number is good to begin with.
pub open spec fn chapter_event_fits<E>(pre: ReaderModel, ch: int, event: ChapterEvent<E>) -> bool {
    match event {
        ChapterEvent::Begin => ch < pre.spine.len() ==> ch < pre.ch_cached.len(),
        ChapterEvent::Truncated(Ok(_)) => ch < pre.spine.len(),
        ChapterEvent::Streamed(Ok(_)) => ch < pre.chapter_sizes.len() && ch < pre.ch_cached.len(),
        _ => true,
    }
}

/// One step of caching chapter `ch`. A cache file is numbered in sixteen bits,
/// which is enough for the chapters of a well-formed state.
pub open spec fn chapter_step<E>(
    pre: ReaderModel,
    ch: int,
    event: ChapterEvent<E>,
    post: ReaderModel,
    action: ChapterAction<E>,
) -> bool {
    match event {
        ChapterEvent::Begin => {
            &&& post == pre
            &&& if ch >= pre.spine.len() || pre.ch_cached[ch] {
                action == ChapterAction::<E>::Done(Ok(()))
            } else {
                &&& action matches ChapterAction::Truncate { dir, ch: number, entry }
                &&& dir@ == pre.cache_dir
                &&& number == ch as u16
                &&& entry == pre.spine[ch]
            }
        },
        ChapterEvent::Truncated(Ok(_)) => {
            &&& post == pre
            &&& action matches ChapterAction::Stream { name, dir, ch: number, entry }
            &&& name@ == pre.file_name()
            &&& dir@ == pre.cache_dir
            &&& number == ch as u16
            &&& entry == pre.spine[ch]
        },
        ChapterEvent::Truncated(Err(e)) => {
            &&& post == pre
            &&& action == ChapterAction::Done(Err(Error::Kernel(e)))
        },
        ChapterEvent::Streamed(Ok(size)) => {
            &&& post == ReaderModel {
                chapter_sizes: pre.chapter_sizes.update(ch, size),
                ch_cached: pre.ch_cached.update(ch, true),
                ..pre
            }
            &&& action == ChapterAction::<E>::Done(Ok(()))
        },
        ChapterEvent::Streamed(Err(message)) => {
            &&& post == pre
            &&& action == ChapterAction::<E>::Done(Err(Error::Stream(message)))
        },
    }
}

impl ReaderApp {
    /// Caches chapter `ch`, one step per call, starting with
    /// [`ChapterEvent::Begin`]. A chapter that is not in the book or is cached
    /// already is left alone.
    pub fn epub_cache_chapter_async<E>(&mut self, ch: usize, event: ChapterEvent<E>) -> (action:
        ChapterAction<E>)
        requires
            chapter_event_fits(old(self)@, ch as int, event),
        ensures
            old(self)@.wf() ==> final(self)@.wf(),
            chapter_step(old(self)@, ch as int, event, final(self)@, action),
    {
        match event {
            ChapterEvent::Begin => {
                if ch >= self.epub.spine.len() || self.epub.ch_cached[ch] {
                    return ChapterAction::Done(Ok(()));
                }
                ChapterAction::Truncate {
                    dir: self.epub.cache_dir.clone(),
                    ch: ch as u16,
                    entry: self.epub.spine[ch],
                }
            },
            ChapterEvent::Truncated(Ok(_)) => ChapterAction::Stream {
                name: self.file_name(),
                dir: self.epub.cache_dir.clone(),
                ch: ch as u16,
                entry: self.epub.spine[ch],
            },
            ChapterEvent::Truncated(Err(e)) => ChapterAction::Done(Err(Error::Kernel(e))),
            ChapterEvent::Streamed(Ok(size)) => {
                self.epub.chapter_sizes[ch] = size;
                self.epub.ch_cached[ch] = true;
                ChapterAction::Done(Ok(()))
            },
            ChapterEvent::Streamed(Err(message)) => ChapterAction::Done(Err(Error::Stream(message))),
        }
    }
}

} // verus!
