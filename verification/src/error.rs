//! What can go wrong while a book is opened or cached.
use vstd::prelude::*;

verus! {

/// The class of a failure that this library raises itself.
#[derive(Clone, Copy, Debug, PartialEq, Eq, Structural)]
pub enum ErrorKind {
    InvalidData,
    ParseFailed,
    OutOfMemory,
    ReadFailed,
    NotFound,
    BadEncoding,
}

/// The places at which opening a book can fail for a reason of its own.
#[derive(Clone, Copy, Debug, PartialEq, Eq, Structural)]
pub enum Fault {
    /// The file is shorter than an empty archive.
    ZipTooSmall,
    /// The tail of the file holds no end-of-central-directory record.
    Eocd,
    /// There is no memory for the central directory.
    DirectoryAlloc,
    /// The central directory does not parse.
    DirectoryParse,
    /// `META-INF/container.xml` cannot be extracted.
    ContainerRead,
    /// `META-INF/container.xml` does not parse.
    ContainerParse,
    /// There is no container document and no package document either.
    NoOpf,
    /// The path of the package document is not UTF-8.
    OpfPath,
    /// The archive has no entry for the package document.
    OpfEntry,
    /// The package document cannot be extracted.
    OpfRead,
    /// The package document does not parse.
    OpfParse,
}

impl Fault {
    /// The class of each fault.
    pub open spec fn spec_kind(self) -> ErrorKind {
        match self {
            Fault::ZipTooSmall => ErrorKind::InvalidData,
            Fault::Eocd | Fault::DirectoryParse | Fault::ContainerParse | Fault::OpfParse =>
                ErrorKind::ParseFailed,
            Fault::DirectoryAlloc => ErrorKind::OutOfMemory,
            Fault::ContainerRead | Fault::OpfRead => ErrorKind::ReadFailed,
            Fault::NoOpf | Fault::OpfEntry => ErrorKind::NotFound,
            Fault::OpfPath => ErrorKind::BadEncoding,
        }
    }

    /// The operation and the step in which each fault arises.
    pub open spec fn spec_source(self) -> Seq<char> {
        match self {
            Fault::ZipTooSmall => "epub_init_zip: too small"@,
            Fault::Eocd => "epub_init_zip: EOCD"@,
            Fault::DirectoryAlloc => "epub_init_zip: CD alloc"@,
            Fault::DirectoryParse => "epub_init_zip: CD parse"@,
            Fault::ContainerRead => "epub_init_opf: container read"@,
            Fault::ContainerParse => "epub_init_opf: container parse"@,
            Fault::NoOpf => "epub_init_opf: no .opf in zip"@,
            Fault::OpfPath => "epub_init_opf: OPF path"@,
            Fault::OpfEntry => "epub_init_opf: OPF entry"@,
            Fault::OpfRead => "epub_init_opf: OPF read"@,
            Fault::OpfParse => "epub_init_opf: OPF parse"@,
        }
    }

    pub fn kind(&self) -> (kind: ErrorKind)
        ensures
            kind == self.spec_kind(),
    {
        match self {
            Fault::ZipTooSmall => ErrorKind::InvalidData,
            Fault::Eocd | Fault::DirectoryParse | Fault::ContainerParse | Fault::OpfParse =>
                ErrorKind::ParseFailed,
            Fault::DirectoryAlloc => ErrorKind::OutOfMemory,
            Fault::ContainerRead | Fault::OpfRead => ErrorKind::ReadFailed,
            Fault::NoOpf | Fault::OpfEntry => ErrorKind::NotFound,
            Fault::OpfPath => ErrorKind::BadEncoding,
        }
    }

    pub fn source(&self) -> (source: &'static str)
        ensures
            source@ == self.spec_source(),
    {
        match self {
            Fault::ZipTooSmall => "epub_init_zip: too small",
            Fault::Eocd => "epub_init_zip: EOCD",
            Fault::DirectoryAlloc => "epub_init_zip: CD alloc",
            Fault::DirectoryParse => "epub_init_zip: CD parse",
            Fault::ContainerRead => "epub_init_opf: container read",
            Fault::ContainerParse => "epub_init_opf: container parse",
            Fault::NoOpf => "epub_init_opf: no .opf in zip",
            Fault::OpfPath => "epub_init_opf: OPF path",
            Fault::OpfEntry => "epub_init_opf: OPF entry",
            Fault::OpfRead => "epub_init_opf: OPF read",
            Fault::OpfParse => "epub_init_opf: OPF parse",
        }
    }
}

/// The source that goes with a failed stream.
pub const STREAM_SOURCE: &'static str = "epub_cache_chapter_async: stream";

/// Why an operation ended without success; `E` is the error type of the
/// storage underneath, which passes through unchanged.
#[derive(Debug, PartialEq, Eq)]
pub enum Error<E> {
    /// Raised here.
    Fault(Fault),
    /// Raised by the storage.
    Kernel(E),
    /// Raised while an entry was streamed, with the streamer's message; its
    /// source is `STREAM_SOURCE`.
    Stream(&'static str),
}

} // verus!
