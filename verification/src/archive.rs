//! Opening the archive: its directory is found from the end of the file.
use vstd::prelude::*;
use crate::error::{Error, Fault};
use crate::memory::{zeros, Room};
use crate::reader::{ReaderApp, ReaderModel};

verus! {

/// The size of the end-of-central-directory record of an empty archive, and so
/// of the smallest archive there is.
pub const MIN_ARCHIVE: u32 = 22;

/// What has happened while the archive is opened.
#[derive(Debug, PartialEq, Eq)]
pub enum ZipEvent<E> {
    /// The archive is to be opened.
    Begin,
    /// The size of the file, or why it is not known.
    FileSize(Result<u32, E>),
    /// The hash of the file's name, and the cache directory that goes with it.
    NameHashed { hash: u32, dir: String },
    /// That much of the file's tail was read into the page buffer, or the read
    /// failed.
    TailRead(Result<usize, E>),
    /// The offset and the size of the central directory, where the tail gave
    /// them.
    EocdParsed(Option<(u32, u32)>),
    /// The memory for the central directory, which lies at `offset`, if there
    /// was any.
    DirectoryReserved { offset: u32, room: Option<Room> },
    /// The central directory was read into the buffer for it, or the read
    /// failed.
    DirectoryRead(Result<Vec<u8>, E>),
    /// Whether the central directory parsed.
    DirectoryParsed(bool),
}

/// What is to be done to open the archive.
#[derive(Debug, PartialEq, Eq)]
pub enum ZipAction<E> {
    /// Find out the size of the file `name`.
    AskFileSize { name: String },
    /// Hash the bytes of `name`, and derive the cache directory from the hash.
    HashName { name: String },
    /// Read from `offset` of `name` into the first `len` bytes of the page
    /// buffer.
    ReadTail { name: String, offset: u32, len: usize },
    /// Parse the first `len` bytes of the page buffer as the tail of an archive
    /// of that size.
    ParseEocd { len: usize, archive_size: u32 },
    /// Reserve memory for `size` bytes, for the central directory at `offset`.
    ReserveDirectory { offset: u32, size: usize },
    /// Fill `buf` from `offset` of `name`.
    ReadDirectory { name: String, offset: u32, buf: Vec<u8> },
    /// Forget the entries of the last archive, and parse `data` as a central
    /// directory.
    ParseDirectory { data: Vec<u8> },
    /// The operation is over.
    Done(Result<(), Error<E>>),
}

impl ReaderModel {
    /// How much of the archive's end is searched for its directory.
    pub open spec fn tail_len(self) -> int {
        if self.archive_size <= self.limits.eocd_tail {
            self.archive_size as int
        } else {
            self.limits.eocd_tail as int
        }
    }
}

/// What a [`ZipEvent`] must meet: a tail that is asked for fits into the page
/// buffer, and so does one that was read.
pub open spec fn zip_event_fits<E>(pre: ReaderModel, event: ZipEvent<E>) -> bool {
    match event {
        ZipEvent::NameHashed { hash: _, dir: _ } => pre.tail_len() <= pre.limits.page_buf,
        ZipEvent::TailRead(Ok(n)) => n <= pre.limits.page_buf,
        _ => true,
    }
}

/// One step of opening the archive.
pub open spec fn zip_step<E>(
    pre: ReaderModel,
    event: ZipEvent<E>,
    post: ReaderModel,
    action: ZipAction<E>,
) -> bool {
    match event {
        ZipEvent::Begin => {
            &&& post == pre
            &&& action matches ZipAction::AskFileSize { name }
            &&& name@ == pre.file_name()
        },
        ZipEvent::FileSize(Ok(size)) => if size < MIN_ARCHIVE {
            &&& post == pre
            &&& action == ZipAction::<E>::Done(Err(Error::Fault(Fault::ZipTooSmall)))
        } else {
            &&& post == ReaderModel { archive_size: size, ..pre }
            &&& action matches ZipAction::HashName { name }
            &&& name@ == pre.file_name()
        },
        ZipEvent::NameHashed { hash, dir } => {
            &&& post == ReaderModel { name_hash: hash, cache_dir: dir@, ..pre }
            &&& action matches ZipAction::ReadTail { name, offset, len }
            &&& name@ == pre.file_name()
            &&& len == pre.tail_len()
            &&& offset == pre.archive_size - pre.tail_len()
        },
        ZipEvent::TailRead(Ok(n)) => {
            &&& post == pre
            &&& action == ZipAction::<E>::ParseEocd { len: n, archive_size: pre.archive_size }
        },
        ZipEvent::EocdParsed(Some((offset, size))) => {
            &&& post == pre
            &&& action == ZipAction::<E>::ReserveDirectory { offset, size: size as usize }
        },
        ZipEvent::EocdParsed(None) => {
            &&& post == pre
            &&& action == ZipAction::<E>::Done(Err(Error::Fault(Fault::Eocd)))
        },
        ZipEvent::DirectoryReserved { offset, room: Some(room) } => {
            &&& post == pre
            &&& action matches ZipAction::ReadDirectory { name, offset: from, buf }
            &&& name@ == pre.file_name()
            &&& from == offset
            &&& buf@ == zeros(room.spec_size())
        },
        ZipEvent::DirectoryReserved { offset: _, room: None } => {
            &&& post == pre
            &&& action == ZipAction::<E>::Done(Err(Error::Fault(Fault::DirectoryAlloc)))
        },
        ZipEvent::DirectoryRead(Ok(directory)) => {
            &&& post == pre
            &&& action matches ZipAction::ParseDirectory { data }
            &&& data@ == directory@
        },
        ZipEvent::DirectoryParsed(ok) => {
            &&& post == pre
            &&& action == ZipAction::<E>::Done(
                if ok {
                    Ok(())
                } else {
                    Err(Error::Fault(Fault::DirectoryParse))
                },
            )
        },
        ZipEvent::FileSize(Err(e)) | ZipEvent::TailRead(Err(e)) | ZipEvent::DirectoryRead(
            Err(e),
        ) => {
            &&& post == pre
            &&& action == ZipAction::Done(Err(Error::Kernel(e)))
        },
    }
}

impl ReaderApp {
    /// Opens the archive, one step per call, starting with [`ZipEvent::Begin`].
    pub fn epub_init_zip<E>(&mut self, event: ZipEvent<E>) -> (action: ZipAction<E>)
        requires
            zip_event_fits(old(self)@, event),
        ensures
            zip_step(old(self)@, event, final(self)@, action),
    {
        match event {
            ZipEvent::Begin => ZipAction::AskFileSize { name: self.file_name() },
            ZipEvent::FileSize(Ok(size)) => {
                if size < MIN_ARCHIVE {
                    return ZipAction::Done(Err(Error::Fault(Fault::ZipTooSmall)));
                }
                self.epub.archive_size = size;
                ZipAction::HashName { name: self.file_name() }
            },
            ZipEvent::NameHashed { hash, dir } => {
                self.epub.name_hash = hash;
                self.epub.cache_dir = dir;
                let size = self.epub.archive_size;
                let len: usize = if size as usize <= self.limits.eocd_tail {
                    size as usize
                } else {
                    self.limits.eocd_tail
                };
                ZipAction::ReadTail { name: self.file_name(), offset: size - len as u32, len }
            },
            ZipEvent::TailRead(Ok(n)) => ZipAction::ParseEocd {
                len: n,
                archive_size: self.epub.archive_size,
            },
            ZipEvent::EocdParsed(Some((offset, size))) => ZipAction::ReserveDirectory {
                offset,
                size: size as usize,
            },
            ZipEvent::EocdParsed(None) => ZipAction::Done(Err(Error::Fault(Fault::Eocd))),
            ZipEvent::DirectoryReserved { offset, room: Some(room) } => ZipAction::ReadDirectory {
                name: self.file_name(),
                offset,
                buf: room.into_zeros(),
            },
            ZipEvent::DirectoryReserved { offset: _, room: None } => {
                ZipAction::Done(Err(Error::Fault(Fault::DirectoryAlloc)))
            },
            ZipEvent::DirectoryRead(Ok(data)) => ZipAction::ParseDirectory { data },
            ZipEvent::DirectoryParsed(ok) => {
                if ok {
                    ZipAction::Done(Ok(()))
                } else {
                    ZipAction::Done(Err(Error::Fault(Fault::DirectoryParse)))
                }
            },
            ZipEvent::FileSize(Err(e)) | ZipEvent::TailRead(Err(e)) | ZipEvent::DirectoryRead(
                Err(e),
            ) => ZipAction::Done(Err(Error::Kernel(e))),
        }
    }
}

} // verus!
