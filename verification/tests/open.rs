use epub_cache::archive::{ZipAction, ZipEvent};
use epub_cache::error::{Error, ErrorKind, Fault};
use epub_cache::memory::reserve;
use epub_cache::package::{OpfAction, OpfEvent};
use epub_cache::reader::{BgCacheState, EpubState, Limits, ReaderApp};
use epub_cache::text::{parent_dir, utf8_text};

/// A reader of a book with three chapters, in a table of four.
fn reader() -> ReaderApp {
    ReaderApp {
        limits: Limits { eocd_tail: 512, page_buf: 8, chapter_cache_max: 64, meta_max: 100 },
        name: b"book.epub".to_vec(),
        is_epub: true,
        title: vec![b'-'; 6],
        title_len: 0,
        file_size: 0,
        epub: EpubState {
            archive_size: 1000,
            name_hash: 0xabcd,
            cache_dir: "_ABCD".to_string(),
            spine: vec![11, 12, 13],
            meta_title: Vec::new(),
            meta_title_len: 0,
            chapter: 0,
            chapter_sizes: vec![0; 4],
            ch_cached: vec![false; 4],
            chapters_cached: false,
            ch_cache: Vec::new(),
            cache_chapter: 0,
            bg_cache: BgCacheState::CacheChapter,
            img_cache_ch: 9,
            img_cache_offset: 77,
            img_scan_wrapped: true,
        },
    }
}

type Event = ZipEvent<&'static str>;
type Action = ZipAction<&'static str>;

fn book() -> String {
    "book.epub".to_string()
}

fn fault(fault: Fault) -> Action {
    ZipAction::Done(Err(Error::Fault(fault)))
}

#[test]
fn archive_opens() {
    let mut app = reader();
    app.limits.page_buf = 8192;
    assert_eq!(app.epub_init_zip(Event::Begin), ZipAction::AskFileSize { name: book() });
    assert_eq!(
        app.epub_init_zip(Event::FileSize(Ok(700))),
        ZipAction::HashName { name: book() }
    );
    assert_eq!(app.epub.archive_size, 700);
    assert_eq!(
        app.epub_init_zip(Event::NameHashed { hash: 5, dir: "_5".to_string() }),
        ZipAction::ReadTail { name: book(), offset: 188, len: 512 }
    );
    assert_eq!(app.epub.name_hash, 5);
    assert_eq!(app.epub.cache_dir, "_5");
    assert_eq!(
        app.epub_init_zip(Event::TailRead(Ok(510))),
        ZipAction::ParseEocd { len: 510, archive_size: 700 }
    );
    assert_eq!(
        app.epub_init_zip(Event::EocdParsed(Some((600, 3)))),
        ZipAction::ReserveDirectory { offset: 600, size: 3 }
    );
    assert_eq!(
        app.epub_init_zip(Event::DirectoryReserved { offset: 600, room: reserve(3) }),
        ZipAction::ReadDirectory { name: book(), offset: 600, buf: vec![0; 3] }
    );
    assert_eq!(
        app.epub_init_zip(Event::DirectoryRead(Ok(vec![7, 8, 9]))),
        ZipAction::ParseDirectory { data: vec![7, 8, 9] }
    );
    assert_eq!(app.epub_init_zip(Event::DirectoryParsed(true)), ZipAction::Done(Ok(())));
}

#[test]
fn small_archive_is_searched_whole() {
    let mut app = reader();
    app.limits.page_buf = 8192;
    app.epub_init_zip(Event::FileSize(Ok(22)));
    assert_eq!(
        app.epub_init_zip(Event::NameHashed { hash: 5, dir: "_5".to_string() }),
        ZipAction::ReadTail { name: book(), offset: 0, len: 22 }
    );
}

#[test]
fn archive_that_is_too_small_is_refused() {
    let mut app = reader();
    assert_eq!(app.epub_init_zip(Event::FileSize(Ok(21))), fault(Fault::ZipTooSmall));
    assert_eq!(app.epub.archive_size, 1000);
}

#[test]
fn storage_errors_pass_through() {
    let mut app = reader();
    let no_card: Action = ZipAction::Done(Err(Error::Kernel("no card")));
    assert_eq!(app.epub_init_zip(Event::FileSize(Err("no card"))), no_card);
    assert_eq!(app.epub_init_zip(Event::TailRead(Err("no card"))), no_card);
    assert_eq!(app.epub_init_zip(Event::DirectoryRead(Err("no card"))), no_card);
}

#[test]
fn broken_archives_are_refused() {
    let mut app = reader();
    assert_eq!(app.epub_init_zip(Event::EocdParsed(None)), fault(Fault::Eocd));
    assert_eq!(app.epub_init_zip(Event::DirectoryParsed(false)), fault(Fault::DirectoryParse));
    assert_eq!(
        app.epub_init_zip(Event::DirectoryReserved { offset: 600, room: None }),
        fault(Fault::DirectoryAlloc)
    );
}

#[test]
fn empty_directory_needs_no_memory() {
    let mut app = reader();
    assert_eq!(
        app.epub_init_zip(Event::EocdParsed(Some((0, 0)))),
        ZipAction::ReserveDirectory { offset: 0, size: 0 }
    );
    assert_eq!(
        app.epub_init_zip(Event::DirectoryReserved { offset: 0, room: reserve(0) }),
        ZipAction::ReadDirectory { name: book(), offset: 0, buf: Vec::new() }
    );
}

#[test]
fn faults_have_kinds_and_sources() {
    let all = [
        (Fault::ZipTooSmall, ErrorKind::InvalidData, "epub_init_zip: too small"),
        (Fault::Eocd, ErrorKind::ParseFailed, "epub_init_zip: EOCD"),
        (Fault::DirectoryAlloc, ErrorKind::OutOfMemory, "epub_init_zip: CD alloc"),
        (Fault::DirectoryParse, ErrorKind::ParseFailed, "epub_init_zip: CD parse"),
        (Fault::ContainerRead, ErrorKind::ReadFailed, "epub_init_opf: container read"),
        (Fault::ContainerParse, ErrorKind::ParseFailed, "epub_init_opf: container parse"),
        (Fault::NoOpf, ErrorKind::NotFound, "epub_init_opf: no .opf in zip"),
        (Fault::OpfPath, ErrorKind::BadEncoding, "epub_init_opf: OPF path"),
        (Fault::OpfEntry, ErrorKind::NotFound, "epub_init_opf: OPF entry"),
        (Fault::OpfRead, ErrorKind::ReadFailed, "epub_init_opf: OPF read"),
        (Fault::OpfParse, ErrorKind::ParseFailed, "epub_init_opf: OPF parse"),
    ];
    for (fault, kind, source) in all {
        assert_eq!(fault.kind(), kind);
        assert_eq!(fault.source(), source);
    }
}

fn parsed(ok: bool, title: &[u8], title_len: usize) -> OpfEvent {
    OpfEvent::OpfParsed {
        data: vec![4, 5],
        dir: "OEBPS".to_string(),
        ok,
        spine: vec![21, 22],
        title: title.to_vec(),
        title_len,
    }
}

fn searched(title: &str) -> OpfEvent {
    OpfEvent::TocSearched { text: title.to_string() }
}

#[test]
fn package_opens_through_the_container() {
    let mut app = reader();
    let path = || "OEBPS/content.opf".to_string();
    assert_eq!(
        app.epub_init_opf(OpfEvent::Begin),
        OpfAction::FindContainer { container: "META-INF/container.xml" }
    );
    assert_eq!(
        app.epub_init_opf(OpfEvent::ContainerFound(Some(3))),
        OpfAction::ExtractContainer { name: book(), entry: 3 }
    );
    assert_eq!(
        app.epub_init_opf(OpfEvent::ContainerRead(Some(vec![1]))),
        OpfAction::ParseContainer { data: vec![1] }
    );
    assert_eq!(
        app.epub_init_opf(OpfEvent::ContainerParsed(Some(b"OEBPS/content.opf".to_vec()))),
        OpfAction::FindOpf { path: path() }
    );
    assert_eq!(
        app.epub_init_opf(OpfEvent::OpfFound { path: path(), entry: Some(8) }),
        OpfAction::ExtractOpf { name: book(), path: path(), entry: 8 }
    );
    assert_eq!(
        app.epub_init_opf(OpfEvent::OpfRead { path: path(), document: Some(vec![4, 5]) }),
        OpfAction::ParseOpf { data: vec![4, 5], dir: "OEBPS".to_string() }
    );
    assert_eq!(
        app.epub_init_opf(parsed(true, b"Moby....", 4)),
        OpfAction::FindToc { data: vec![4, 5], dir: "OEBPS".to_string() }
    );
    assert_eq!(app.epub.spine, vec![21, 22]);
    assert_eq!(
        app.epub_init_opf(searched("Moby")),
        OpfAction::SaveTitle { name: book(), title: "Moby".to_string() }
    );
    assert_eq!(app.title, b"Moby--".to_vec());
    assert_eq!(app.title_len, 4);
    assert_eq!(app.epub_init_opf(OpfEvent::TitleSaved(true)), OpfAction::ClearToc);
    assert_eq!(app.epub_init_opf(OpfEvent::TocCleared), OpfAction::Done(Ok(())));
}

#[test]
fn archive_without_container_is_scanned() {
    let mut app = reader();
    assert_eq!(app.epub_init_opf(OpfEvent::ContainerFound(None)), OpfAction::ScanForOpf);
    assert_eq!(
        app.epub_init_opf(OpfEvent::OpfScanned(Some(b"book.opf".to_vec()))),
        OpfAction::FindOpf { path: "book.opf".to_string() }
    );
    assert_eq!(
        app.epub_init_opf(OpfEvent::OpfScanned(None)),
        OpfAction::Done(Err(Fault::NoOpf))
    );
}

#[test]
fn exact_path_comes_before_case() {
    let mut app = reader();
    let path = || "a.opf".to_string();
    assert_eq!(
        app.epub_init_opf(OpfEvent::OpfFound { path: path(), entry: None }),
        OpfAction::FindOpfIcase { path: path() }
    );
    assert_eq!(
        app.epub_init_opf(OpfEvent::OpfFoundIcase { path: path(), entry: Some(2) }),
        OpfAction::ExtractOpf { name: book(), path: path(), entry: 2 }
    );
    assert_eq!(
        app.epub_init_opf(OpfEvent::OpfFoundIcase { path: path(), entry: None }),
        OpfAction::Done(Err(Fault::OpfEntry))
    );
}

#[test]
fn broken_packages_are_refused() {
    let mut app = reader();
    let refused = |fault: Fault| OpfAction::Done(Err(fault));
    assert_eq!(app.epub_init_opf(OpfEvent::ContainerRead(None)), refused(Fault::ContainerRead));
    assert_eq!(
        app.epub_init_opf(OpfEvent::ContainerParsed(None)),
        refused(Fault::ContainerParse)
    );
    assert_eq!(
        app.epub_init_opf(OpfEvent::ContainerParsed(Some(vec![b'a', 0xc0]))),
        refused(Fault::OpfPath)
    );
    assert_eq!(
        app.epub_init_opf(OpfEvent::OpfRead { path: "a".to_string(), document: None }),
        refused(Fault::OpfRead)
    );
    assert_eq!(app.epub_init_opf(parsed(false, b"Mo", 2)), refused(Fault::OpfParse));
    // what the parser wrote stays
    assert_eq!(app.epub.spine, vec![21, 22]);
    assert_eq!(app.epub.meta_title_len, 2);
    assert_eq!(app.title_len, 0);
}

#[test]
fn title_is_cut_to_its_room_and_saved_whole() {
    let mut app = reader();
    app.epub_init_opf(parsed(true, b"Middlemarch....", 11));
    assert_eq!(
        app.epub_init_opf(searched("Middlemarch")),
        OpfAction::SaveTitle { name: book(), title: "Middlemarch".to_string() }
    );
    assert_eq!(app.title, b"Middle".to_vec());
    assert_eq!(app.title_len, 6);
    // a title that cannot be saved is no failure
    assert_eq!(app.epub_init_opf(OpfEvent::TitleSaved(false)), OpfAction::ClearToc);
    assert_eq!(app.epub_init_opf(OpfEvent::TocCleared), OpfAction::Done(Ok(())));
}

/// The cache directory of a hash.
fn dir_for(hash: u32) -> String {
    format!("_{:X}", hash)
}

/// Opens the archive with the same answers to the same questions.
fn open(app: &mut ReaderApp, directory_ok: bool) -> (Vec<String>, Action) {
    let mut asked: Vec<String> = Vec::new();
    let mut event = Event::Begin;
    loop {
        let action = app.epub_init_zip(event);
        asked.push(format!("{:?}", action));
        assert_eq!(app.epub.cache_dir, dir_for(app.epub.name_hash));
        event = match action {
            ZipAction::AskFileSize { name } => ZipEvent::FileSize(Ok(name.len() as u32 * 50)),
            ZipAction::HashName { name } => {
                let hash = name.len() as u32;
                ZipEvent::NameHashed { hash, dir: dir_for(hash) }
            }
            ZipAction::ReadTail { len, .. } => ZipEvent::TailRead(Ok(len)),
            ZipAction::ParseEocd { len, .. } => ZipEvent::EocdParsed(Some((len as u32, 4))),
            ZipAction::ReserveDirectory { offset, size } => {
                ZipEvent::DirectoryReserved { offset, room: reserve(size) }
            }
            ZipAction::ReadDirectory { buf, .. } => {
                ZipEvent::DirectoryRead(Ok(buf.iter().map(|b| b + 1).collect()))
            }
            ZipAction::ParseDirectory { .. } => ZipEvent::DirectoryParsed(directory_ok),
            ZipAction::Done(result) => return (asked, ZipAction::Done(result)),
        };
    }
}

#[test]
fn openings_of_one_file_agree() {
    let mut first = reader();
    first.limits.page_buf = 8192;
    let mut second = reader();
    second.limits.page_buf = 8192;
    second.epub.archive_size = 5;
    second.epub.name_hash = 0x77;
    second.epub.cache_dir = "_77".to_string();
    second.epub.ch_cache = vec![1, 2];
    let (asked, result) = open(&mut first, true);
    assert_eq!(result, ZipAction::Done(Ok(())));
    assert_eq!(asked.len(), 8);
    assert_eq!(open(&mut second, true), (asked.clone(), ZipAction::Done(Ok(()))));
    assert_eq!(second.epub.archive_size, first.epub.archive_size);
    assert_eq!(second.epub.name_hash, first.epub.name_hash);
    assert_eq!(second.epub.cache_dir, first.epub.cache_dir);
    // once more changes nothing
    open(&mut second, true);
    assert_eq!(second.epub.archive_size, 450);
    assert_eq!(second.epub.name_hash, 9);
    assert_eq!(second.epub.cache_dir, "_9");
    assert_eq!(second.epub.ch_cache, vec![1, 2]);
}

#[test]
fn directory_goes_with_hash_after_a_failure() {
    let mut app = reader();
    app.limits.page_buf = 8192;
    assert_eq!(open(&mut app, false).1, fault(Fault::DirectoryParse));
    assert_eq!((app.epub.name_hash, app.epub.cache_dir.as_str()), (9, "_9"));
}

#[test]
fn book_without_title_keeps_the_one_on_display() {
    let mut app = reader();
    app.title_len = 3;
    app.epub_init_opf(parsed(true, b"........", 0));
    assert_eq!(app.epub_init_opf(searched("")), OpfAction::ClearToc);
    assert_eq!(app.title, b"------".to_vec());
    assert_eq!(app.title_len, 3);
}

#[test]
fn directory_is_what_stands_before_the_last_slash() {
    assert_eq!(parent_dir("OEBPS/content.opf"), "OEBPS");
    assert_eq!(parent_dir("a/b/c.opf"), "a/b");
    assert_eq!(parent_dir("content.opf"), "");
    assert_eq!(parent_dir("/content.opf"), "");
    assert_eq!(parent_dir("a/"), "a");
    assert_eq!(parent_dir(""), "");
    assert_eq!(parent_dir("b\u{fc}cher/\u{20ac}.opf"), "b\u{fc}cher");
}

#[test]
fn text_is_utf8() {
    assert_eq!(utf8_text(b"abc"), Some("abc".to_string()));
    assert_eq!(utf8_text("\u{20ac}".as_bytes()), Some("\u{20ac}".to_string()));
    assert_eq!(utf8_text(&[0xe2, 0x82]), None);
    assert_eq!(utf8_text(&[]), Some(String::new()));
}
