use epub_cache::error::Error;
use epub_cache::reader::{BgCacheState, EpubState, Limits, ReaderApp};
use epub_cache::record::{CheckAction, CheckEvent, FinishAction, FinishEvent};

/// A reader of a book with three chapters, in a table of four.
fn reader() -> ReaderApp {
    ReaderApp {
        limits: Limits { eocd_tail: 512, page_buf: 8, chapter_cache_max: 64, meta_max: 100 },
        name: b"book.epub".to_vec(),
        is_epub: true,
        title: vec![b'-'; 6],
        title_len: 0,
        file_size: 0,
        epub: EpubState {
            archive_size: 1000,
            name_hash: 0xabcd,
            cache_dir: "_ABCD".to_string(),
            spine: vec![11, 12, 13],
            meta_title: Vec::new(),
            meta_title_len: 0,
            chapter: 0,
            chapter_sizes: vec![0; 4],
            ch_cached: vec![false; 4],
            chapters_cached: false,
            ch_cache: Vec::new(),
            cache_chapter: 0,
            bg_cache: BgCacheState::CacheChapter,
            img_cache_ch: 9,
            img_cache_offset: 77,
            img_scan_wrapped: true,
        },
    }
}

type Event = CheckEvent<&'static str>;
type Action = CheckAction<&'static str>;

fn ensure_dir() -> Action {
    CheckAction::EnsureDir { dir: "_ABCD".to_string() }
}

#[test]
fn record_is_read_through_the_page_buffer() {
    let mut app = reader();
    assert_eq!(
        app.epub_check_cache(Event::Begin),
        CheckAction::ReadRecord { dir: "_ABCD".to_string(), cap: 8 }
    );
    app.limits.page_buf = 8192;
    assert_eq!(
        app.epub_check_cache(Event::Begin),
        CheckAction::ReadRecord { dir: "_ABCD".to_string(), cap: 100 }
    );
    assert_eq!(
        app.epub_check_cache(Event::RecordRead(Ok(20))),
        CheckAction::ParseRecord {
            len: 20,
            archive_size: 1000,
            name_hash: 0xabcd,
            spine_len: 3
        }
    );
}

#[test]
fn matching_record_is_a_hit() {
    let mut app = reader();
    app.epub.ch_cached[3] = true;
    let found = Event::RecordParsed { sizes: vec![5, 6, 0, 0], count: Some(2) };
    assert_eq!(app.epub_check_cache(found), CheckAction::Done(Ok(true)));
    assert_eq!(app.epub.chapter_sizes, vec![5, 6, 0, 0]);
    assert_eq!(app.epub.ch_cached, vec![true, true, false, true]);
    assert!(app.epub.chapters_cached);
}

#[test]
fn missing_record_starts_over() {
    let mut app = reader();
    app.epub.cache_chapter = 2;
    assert_eq!(app.epub_check_cache(Event::RecordRead(Err("no file"))), ensure_dir());
    let other = Event::RecordParsed { sizes: vec![9, 0, 0, 0], count: None };
    assert_eq!(app.epub_check_cache(other), ensure_dir());
    assert_eq!(app.epub.chapter_sizes, vec![9, 0, 0, 0]);
    assert!(!app.epub.chapters_cached);
    assert_eq!(app.epub.cache_chapter, 2);
    assert_eq!(app.epub_check_cache(Event::DirReady(Ok(()))), CheckAction::Done(Ok(false)));
    assert_eq!(app.epub.cache_chapter, 0);
}

#[test]
fn cache_directory_that_cannot_be_made_is_an_error() {
    let mut app = reader();
    assert_eq!(
        app.epub_check_cache(Event::DirReady(Err("read only"))),
        CheckAction::Done(Err(Error::Kernel("read only")))
    );
}

#[test]
fn recorded_cache_is_found_again() {
    let mut app = reader();
    app.epub.chapter_sizes = vec![5, 6, 7, 8];
    let (size, hash, sizes) = match app.epub_finish_cache::<u8>(FinishEvent::Begin) {
        FinishAction::Encode { archive_size, name_hash, sizes } => {
            (archive_size, name_hash, sizes)
        }
        other => panic!("{:?}", other),
    };
    assert_eq!(sizes, vec![5, 6, 7]);
    assert_eq!(
        app.epub_finish_cache::<u8>(FinishEvent::Encoded(vec![1, 2, 3])),
        FinishAction::Write { dir: "_ABCD".to_string(), data: vec![1, 2, 3] }
    );
    assert_eq!(
        app.epub_finish_cache::<u8>(FinishEvent::Written(Ok(()))),
        FinishAction::Done(Ok(false))
    );
    assert!(app.epub.chapters_cached);

    let mut later = reader();
    match later.epub_check_cache(Event::RecordRead(Ok(3))) {
        CheckAction::ParseRecord { archive_size, name_hash, spine_len, .. } => {
            assert_eq!((archive_size, name_hash, spine_len), (size, hash, sizes.len()));
        }
        other => panic!("{:?}", other),
    }
    let mut table = sizes.clone();
    table.push(0);
    let found = Event::RecordParsed { sizes: table, count: Some(3) };
    assert_eq!(later.epub_check_cache(found), CheckAction::Done(Ok(true)));
    assert_eq!(later.epub.ch_cached, vec![true, true, true, false]);
    assert_eq!(later.epub.chapter_sizes[..3], app.epub.chapter_sizes[..3]);
}

#[test]
fn record_that_cannot_be_written_is_an_error() {
    let mut app = reader();
    assert_eq!(
        app.epub_finish_cache(FinishEvent::Written(Err("disk full"))),
        FinishAction::Done(Err(Error::Kernel("disk full")))
    );
    assert!(!app.epub.chapters_cached);
}

#[test]
fn record_needs_a_size_for_each_chapter_only() {
    let mut app = reader();
    app.epub.chapter_sizes = vec![5, 6, 7];
    app.epub.ch_cached = Vec::new();
    assert_eq!(
        app.epub_finish_cache::<u8>(FinishEvent::Begin),
        FinishAction::Encode { archive_size: 1000, name_hash: 0xabcd, sizes: vec![5, 6, 7] }
    );
    app.epub.spine = vec![1; 9];
    assert_eq!(
        app.epub_check_cache(Event::RecordParsed { sizes: vec![1, 2, 3], count: Some(0) }),
        CheckAction::Done(Ok(true))
    );
}
