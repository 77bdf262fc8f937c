//! The two ends of a chapter that is being streamed: what the streamer reads
//! comes from the archive, and what it writes goes to the end of the chapter's
//! cache file.
use vstd::prelude::*;

verus! {

/// The end from which the streamer reads: the archive `name`.
#[derive(Clone, Copy, Debug)]
pub struct StreamReader<'a> {
    pub name: &'a str,
}

/// The end to which the streamer writes: the cache file of chapter `ch` in `dir`.
#[derive(Clone, Copy, Debug)]
pub struct StreamWriter<'a> {
    pub dir: &'a str,
    pub ch: u16,
}

/// What has happened at the end from which is read.
#[derive(Debug, PartialEq, Eq)]
pub enum ReadEvent<E> {
    /// The streamer wants `len` bytes from `offset` on.
    Asked { offset: u32, len: usize },
    /// That many bytes were read, or the read failed.
    Read(Result<usize, E>),
}

/// What is to be done at the end from which is read.
#[derive(Debug, PartialEq, Eq)]
pub enum ReadAction<'a, E> {
    /// Read from `offset` of `name` into the streamer's buffer of `len` bytes.
    ReadChunk { name: &'a str, offset: u32, len: usize },
    /// Tell the streamer.
    Done(Result<usize, E>),
}

/// What has happened at the end to which is written.
#[derive(Debug, PartialEq, Eq)]
pub enum WriteEvent<'a, E> {
    /// The streamer has written `data`.
    Asked { data: &'a [u8] },
    /// The data was stored, or could not be.
    Written(Result<(), E>),
}

/// What is to be done at the end to which is written.
#[derive(Debug, PartialEq, Eq)]
pub enum WriteAction<'a, E> {
    /// Add `data` to the end of the cache file of chapter `ch` in `dir`.
    Append { dir: &'a str, ch: u16, data: &'a [u8] },
    /// Tell the streamer.
    Done(Result<(), E>),
}

/// One step of a read by the streamer from the archive `name`.
pub open spec fn read_step<E>(
    name: Seq<char>,
    event: ReadEvent<E>,
    action: ReadAction<'_, E>,
) -> bool {
    match event {
        ReadEvent::Asked { offset, len } => {
            &&& action matches ReadAction::ReadChunk { name: of, offset: from, len: room }
            &&& of@ == name
            &&& from == offset
            &&& room == len
        },
        ReadEvent::Read(result) => action == ReadAction::<E>::Done(result),
    }
}

/// One step of a write by the streamer to the cache file of chapter `ch` in
/// `dir`.
pub open spec fn write_step<E>(
    dir: Seq<char>,
    ch: u16,
    event: WriteEvent<'_, E>,
    action: WriteAction<'_, E>,
) -> bool {
    match event {
        WriteEvent::Asked { data } => {
            &&& action matches WriteAction::Append { dir: to, ch: number, data: bytes }
            &&& to@ == dir
            &&& number == ch
            &&& bytes@ == data@
        },
        WriteEvent::Written(result) => action == WriteAction::<E>::Done(result),
    }
}

impl<'a> StreamReader<'a> {
    /// Serves one read of the streamer, one step per call, starting with
    /// [`ReadEvent::Asked`].
    pub fn read_at<E>(&self, event: ReadEvent<E>) -> (action: ReadAction<'a, E>)
        ensures
            read_step(self.name@, event, action),
    {
        match event {
            ReadEvent::Asked { offset, len } => ReadAction::ReadChunk {
                name: self.name,
                offset,
                len,
            },
            ReadEvent::Read(result) => ReadAction::Done(result),
        }
    }
}

impl<'a> StreamWriter<'a> {
    /// Serves one write of the streamer, one step per call, starting with
    /// [`WriteEvent::Asked`].
    pub fn write_chunk<'b, E>(&self, event: WriteEvent<'b, E>) -> (action: WriteAction<'b, E>)
        where 'a: 'b
        ensures
            write_step(self.dir@, self.ch, event, action),
    {
        match event {
            WriteEvent::Asked { data } => WriteAction::Append { dir: self.dir, ch: self.ch, data },
            WriteEvent::Written(result) => WriteAction::Done(result),
        }
    }
}

} // verus!
