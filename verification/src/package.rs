//! Opening the package: the document that lists the chapters of the book.
use vstd::prelude::*;
use vstd::utf8::{decode_utf8, valid_utf8};
use crate::error::Fault;
use crate::reader::{ReaderApp, ReaderModel};
use crate::text::{dir_of, parent_dir, utf8_text};

verus! {

/// The document that names the package document.
pub const CONTAINER: &'static str = "META-INF/container.xml";

/// What has happened while the package is opened.
#[derive(Debug, PartialEq, Eq)]
pub enum OpfEvent {
    /// The package is to be opened.
    Begin,
    /// The entry of the container document, where the archive has one.
    ContainerFound(Option<usize>),
    /// The container document, where it could be extracted.
    ContainerRead(Option<Vec<u8>>),
    /// The path of the package document, where the container document named
    /// one.
    ContainerParsed(Option<Vec<u8>>),
    /// The path of the package document, where the archive was seen to hold one.
    OpfScanned(Option<Vec<u8>>),
    /// The entry of the package document at `path`, where the archive has one.
    OpfFound { path: String, entry: Option<usize> },
    /// The same, with upper and lower case taken as one.
    OpfFoundIcase { path: String, entry: Option<usize> },
    /// The package document at `path`, where it could be extracted.
    OpfRead { path: String, document: Option<Vec<u8>> },
    /// The package document `data` of the directory `dir` was parsed: whether
    /// that went well, and the spine and the title as the parser left them.
    OpfParsed {
        data: Vec<u8>,
        dir: String,
        ok: bool,
        spine: Vec<usize>,
        title: Vec<u8>,
        title_len: usize,
    },
    /// The package document was searched for the table of contents; `text` is
    /// the whole title from the metadata, as text.
    TocSearched { text: String },
    /// Whether the title was saved.
    TitleSaved(bool),
    /// The old table of contents was dropped.
    TocCleared,
}

/// What is to be done to open the package.
#[derive(Debug, PartialEq, Eq)]
pub enum OpfAction {
    /// Look for the container document, which has the path `container`.
    FindContainer { container: &'static str },
    /// Extract the container document from `entry` of the archive `name`.
    ExtractContainer { name: String, entry: usize },
    /// Find the path of the package document in the container document.
    ParseContainer { data: Vec<u8> },
    /// Look through the archive for a package document.
    ScanForOpf,
    /// Look for the entry at `path`.
    FindOpf { path: String },
    /// Look for the entry at `path`, with upper and lower case taken as one.
    FindOpfIcase { path: String },
    /// Extract the package document at `path` from `entry` of the archive
    /// `name`.
    ExtractOpf { name: String, path: String, entry: usize },
    /// Parse the package document, whose paths are relative to `dir`.
    ParseOpf { data: Vec<u8>, dir: String },
    /// Find out where the table of contents is, for when it is needed.
    FindToc { data: Vec<u8>, dir: String },
    /// Keep `title`, which is the whole title of the book, as the title of the
    /// file `name`.
    SaveTitle { name: String, title: String },
    /// Drop the table of contents of the last book.
    ClearToc,
    /// The operation is over.
    Done(Result<(), Fault>),
}

impl ReaderModel {
    /// How much of the title buffer a title of `title_len` bytes takes up.
    pub open spec fn title_room(self, title_len: usize) -> int {
        if title_len <= self.title.len() {
            title_len as int
        } else {
            self.title.len() as int
        }
    }

    /// The state with the title from the metadata on display, where there is
    /// one.
    pub open spec fn with_title(self) -> ReaderModel {
        let n = self.title_room(self.meta_title_len);
        if self.meta_title_len == 0 {
            self
        } else {
            ReaderModel {
                title: self.meta_title.subrange(0, n) + self.title.subrange(
                    n,
                    self.title.len() as int,
                ),
                title_len: n as usize,
                ..self
            }
        }
    }
}

/// What an [`OpfEvent`] must meet: a title that goes on display is as long as
/// it says.
pub open spec fn opf_event_fits(pre: ReaderModel, event: OpfEvent) -> bool {
    event is TocSearched ==> pre.title_room(pre.meta_title_len) <= pre.meta_title.len()
}

/// The path of the package document has come as bytes.
pub open spec fn takes_path(path: Option<Vec<u8>>, missing: Fault, action: OpfAction) -> bool {
    match path {
        Some(bytes) => if valid_utf8(bytes@) {
            action matches OpfAction::FindOpf { path } && path@ == decode_utf8(bytes@)
        } else {
            action == OpfAction::Done(Err(Fault::OpfPath))
        },
        None => action == OpfAction::Done(Err(missing)),
    }
}

/// The package document at `path` is extracted.
pub open spec fn extracts_opf(
    pre: ReaderModel,
    path: Seq<char>,
    entry: usize,
    action: OpfAction,
) -> bool {
    &&& action matches OpfAction::ExtractOpf { name, path: at, entry: index }
    &&& name@ == pre.file_name()
    &&& at@ == path
    &&& index == entry
}

/// One step of opening the package.
pub open spec fn opf_step(
    pre: ReaderModel,
    event: OpfEvent,
    post: ReaderModel,
    action: OpfAction,
) -> bool {
    match event {
        OpfEvent::Begin => {
            &&& post == pre
            &&& action matches OpfAction::FindContainer { container }
            &&& container@ == CONTAINER@
        },
        OpfEvent::ContainerFound(Some(index)) => {
            &&& post == pre
            &&& action matches OpfAction::ExtractContainer { name, entry }
            &&& name@ == pre.file_name()
            &&& entry == index
        },
        OpfEvent::ContainerFound(None) => post == pre && action == OpfAction::ScanForOpf,
        OpfEvent::ContainerRead(Some(document)) => {
            &&& post == pre
            &&& action matches OpfAction::ParseContainer { data }
            &&& data@ == document@
        },
        OpfEvent::ContainerRead(None) => post == pre && action == OpfAction::Done(
            Err(Fault::ContainerRead),
        ),
        OpfEvent::ContainerParsed(path) => post == pre && takes_path(
            path,
            Fault::ContainerParse,
            action,
        ),
        OpfEvent::OpfScanned(path) => post == pre && takes_path(path, Fault::NoOpf, action),
        OpfEvent::OpfFound { path, entry: Some(entry) } => post == pre && extracts_opf(
            pre,
            path@,
            entry,
            action,
        ),
        OpfEvent::OpfFound { path, entry: None } => {
            &&& post == pre
            &&& action matches OpfAction::FindOpfIcase { path: at }
            &&& at@ == path@
        },
        OpfEvent::OpfFoundIcase { path, entry: Some(entry) } => post == pre && extracts_opf(
            pre,
            path@,
            entry,
            action,
        ),
        OpfEvent::OpfFoundIcase { path: _, entry: None } => post == pre && action
            == OpfAction::Done(Err(Fault::OpfEntry)),
        OpfEvent::OpfRead { path, document: Some(document) } => {
            &&& post == pre
            &&& action matches OpfAction::ParseOpf { data, dir }
            &&& data@ == document@
            &&& dir@ == dir_of(path@)
        },
        OpfEvent::OpfRead { path: _, document: None } => post == pre && action == OpfAction::Done(
            Err(Fault::OpfRead),
        ),
        OpfEvent::OpfParsed { data: document, dir: of, ok, spine, title, title_len } => {
            // The parser works in place, and what it wrote before it failed
            // stays.
            &&& post == ReaderModel {
                spine: spine@,
                meta_title: title@,
                meta_title_len: title_len,
                ..pre
            }
            &&& if ok {
                &&& action matches OpfAction::FindToc { data, dir }
                &&& data@ == document@
                &&& dir@ == of@
            } else {
                action == OpfAction::Done(Err(Fault::OpfParse))
            }
        },
        OpfEvent::TocSearched { text } => {
            &&& post == pre.with_title()
            &&& if pre.meta_title_len > 0 {
                &&& action matches OpfAction::SaveTitle { name, title }
                &&& name@ == pre.file_name()
                &&& title@ == text@
            } else {
                action == OpfAction::ClearToc
            }
        },
        // A title that could not be saved is no failure.
        OpfEvent::TitleSaved(_) => post == pre && action == OpfAction::ClearToc,
        OpfEvent::TocCleared => post == pre && action == OpfAction::Done(Ok(())),
    }
}

/// Goes on with the path of the package document.
fn take_path(path: Option<Vec<u8>>, missing: Fault) -> (action: OpfAction)
    ensures
        takes_path(path, missing, action),
{
    match path {
        Some(bytes) => match utf8_text(&bytes) {
            Some(path) => OpfAction::FindOpf { path },
            None => OpfAction::Done(Err(Fault::OpfPath)),
        },
        None => OpfAction::Done(Err(missing)),
    }
}

impl ReaderApp {
    /// Opens the package, one step per call, starting with [`OpfEvent::Begin`].
    pub fn epub_init_opf(&mut self, event: OpfEvent) -> (action: OpfAction)
        requires
            opf_event_fits(old(self)@, event),
        ensures
            opf_step(old(self)@, event, final(self)@, action),
    {
        match event {
            OpfEvent::Begin => OpfAction::FindContainer { container: CONTAINER },
            OpfEvent::ContainerFound(Some(entry)) => OpfAction::ExtractContainer {
                name: self.file_name(),
                entry,
            },
            OpfEvent::ContainerFound(None) => OpfAction::ScanForOpf,
            OpfEvent::ContainerRead(Some(data)) => OpfAction::ParseContainer { data },
            OpfEvent::ContainerRead(None) => OpfAction::Done(Err(Fault::ContainerRead)),
            OpfEvent::ContainerParsed(path) => take_path(path, Fault::ContainerParse),
            OpfEvent::OpfScanned(path) => take_path(path, Fault::NoOpf),
            OpfEvent::OpfFound { path, entry: Some(entry) } => OpfAction::ExtractOpf {
                name: self.file_name(),
                path,
                entry,
            },
            OpfEvent::OpfFound { path, entry: None } => OpfAction::FindOpfIcase { path },
            OpfEvent::OpfFoundIcase { path, entry: Some(entry) } => OpfAction::ExtractOpf {
                name: self.file_name(),
                path,
                entry,
            },
            OpfEvent::OpfFoundIcase { path: _, entry: None } => {
                OpfAction::Done(Err(Fault::OpfEntry))
            },
            OpfEvent::OpfRead { path, document: Some(data) } => {
                let dir = parent_dir(path.as_str()).to_owned();
                OpfAction::ParseOpf { data, dir }
            },
            OpfEvent::OpfRead { path: _, document: None } => OpfAction::Done(Err(Fault::OpfRead)),
            OpfEvent::OpfParsed { data, dir, ok, spine, title, title_len } => {
                self.epub.spine = spine;
                self.epub.meta_title = title;
                self.epub.meta_title_len = title_len;
                if ok {
                    OpfAction::FindToc { data, dir }
                } else {
                    OpfAction::Done(Err(Fault::OpfParse))
                }
            },
            OpfEvent::TocSearched { text } => {
                if self.epub.meta_title_len > 0 {
                    self.show_title();
                    OpfAction::SaveTitle { name: self.file_name(), title: text }
                } else {
                    OpfAction::ClearToc
                }
            },
            OpfEvent::TitleSaved(_) => OpfAction::ClearToc,
            OpfEvent::TocCleared => OpfAction::Done(Ok(())),
        }
    }

    /// Puts the title from the metadata on display, as far as there is room.
    fn show_title(&mut self)
        requires
            old(self)@.meta_title_len > 0,
            old(self)@.title_room(old(self)@.meta_title_len) <= old(self)@.meta_title.len(),
        ensures
            final(self)@ == old(self)@.with_title(),
    {
        let n: usize = if self.epub.meta_title_len <= self.title.len() {
            self.epub.meta_title_len
        } else {
            self.title.len()
        };
        let ghost before = self@;
        for i in 0..n
            invariant
                n <= before.meta_title.len(),
                n <= before.title.len(),
                self@ == (ReaderModel {
                    title: before.meta_title.subrange(0, i as int) + before.title.subrange(
                        i as int,
                        before.title.len() as int,
                    ),
                    ..before
                }),
        {
            self.title[i] = self.epub.meta_title[i];
            assert(self.title@ =~= before.meta_title.subrange(0, i + 1) + before.title.subrange(
                i + 1,
                before.title.len() as int,
            ));
        }
        self.title_len = n;
    }
}

} // verus!
