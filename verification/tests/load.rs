use epub_cache::load::{IndexAction, IndexEvent, LoadAction, LoadEvent};
use epub_cache::memory::reserve;
use epub_cache::reader::{BgCacheState, EpubState, Limits, ReaderApp};

/// A reader of a book with three chapters, in a table of four.
fn reader() -> ReaderApp {
    ReaderApp {
        limits: Limits { eocd_tail: 512, page_buf: 8, chapter_cache_max: 64, meta_max: 100 },
        name: b"book.epub".to_vec(),
        is_epub: true,
        title: vec![b'-'; 6],
        title_len: 0,
        file_size: 0,
        epub: EpubState {
            archive_size: 1000,
            name_hash: 0xabcd,
            cache_dir: "_ABCD".to_string(),
            spine: vec![11, 12, 13],
            meta_title: Vec::new(),
            meta_title_len: 0,
            chapter: 0,
            chapter_sizes: vec![0; 4],
            ch_cached: vec![false; 4],
            chapters_cached: false,
            ch_cache: Vec::new(),
            cache_chapter: 0,
            bg_cache: BgCacheState::CacheChapter,
            img_cache_ch: 9,
            img_cache_offset: 77,
            img_scan_wrapped: true,
        },
    }
}

type Event = LoadEvent<&'static str>;

fn cached() -> ReaderApp {
    let mut app = reader();
    app.epub.chapters_cached = true;
    app.epub.chapter = 2;
    app.epub.chapter_sizes = vec![3, 20, 20, 65];
    app
}

fn chunk(offset: u32, len: usize) -> LoadAction {
    LoadAction::ReadChunk { dir: "_ABCD".to_string(), ch: 2, offset, len }
}

fn read(offset: u32, buf: &[u8], n: usize) -> Event {
    LoadEvent::ChunkRead { offset, buf: buf.to_vec(), read: Ok(n) }
}

/// The answer of a machine with enough memory.
fn reserved(size: usize) -> Event {
    LoadEvent::Reserved(reserve(size))
}

/// Indexes the chapter being read, and returns how often paging was reset.
fn index(app: &mut ReaderApp) -> usize {
    let mut resets: usize = 0;
    let mut event = IndexEvent::Begin;
    loop {
        event = match app.epub_index_chapter(event) {
            IndexAction::ResetPaging => {
                resets += 1;
                IndexEvent::PagingReset
            }
            IndexAction::Done => return resets,
        };
    }
}

/// Loads the chapter from `file`, with reads of at most `most` bytes.
fn load(app: &mut ReaderApp, file: &[u8], most: usize) -> bool {
    let mut event: Event = LoadEvent::Begin;
    loop {
        event = match app.try_cache_chapter(event) {
            LoadAction::Reserve { size } => reserved(size),
            LoadAction::ReadChunk { offset, len, .. } => {
                assert!(len <= app.limits.page_buf);
                let from = offset as usize;
                let n = len.min(most).min(file.len() - from);
                let mut buf = app.epub.ch_cache[from..from + len].to_vec();
                buf[..n].copy_from_slice(&file[from..from + n]);
                LoadEvent::ChunkRead { offset, buf, read: Ok(n) }
            }
            LoadAction::Done(loaded) => return loaded,
        };
    }
}

#[test]
fn indexing_takes_the_size_and_drops_the_text() {
    let mut app = cached();
    app.epub.ch_cache = vec![1, 2, 3];
    assert_eq!(index(&mut app), 1);
    assert_eq!(app.file_size, 20);
    assert!(app.epub.ch_cache.is_empty());
    app.epub.chapter = 4;
    index(&mut app);
    assert_eq!(app.file_size, 0);
}

#[test]
fn paging_is_reset_before_the_chapter_is_indexed() {
    let mut app = cached();
    app.epub.ch_cache = vec![1, 2, 3];
    let before = format!("{:?}", app);
    assert_eq!(app.epub_index_chapter(IndexEvent::Begin), IndexAction::ResetPaging);
    assert_eq!(format!("{:?}", app), before);
    assert_eq!(app.epub_index_chapter(IndexEvent::PagingReset), IndexAction::Done);
    assert_eq!(app.file_size, 20);
    assert!(app.epub.ch_cache.is_empty());
    assert_eq!(app.epub.chapter, 2);
    assert_eq!(app.epub.chapter_sizes, vec![3, 20, 20, 65]);
    assert_eq!(app.epub.ch_cached, vec![false; 4]);
    assert!(app.epub.chapters_cached);
    assert_eq!(app.epub.bg_cache, BgCacheState::CacheChapter);
}

#[test]
fn other_chapter_of_the_same_length_is_reloaded() {
    let mut app = cached();
    let first: Vec<u8> = (0..20).collect();
    let second: Vec<u8> = (100..120).collect();
    assert!(load(&mut app, &first, 8));
    app.epub.chapter = 1;
    index(&mut app);
    assert!(load(&mut app, &second, 8));
    assert_eq!(app.epub.ch_cache, second);
}

#[test]
fn nothing_of_another_chapter_survives() {
    let mut app = cached();
    assert!(load(&mut app, &[7; 20], 8));
    app.epub.chapter = 1;
    index(&mut app);
    // the file of the other chapter is shorter than its size
    assert!(load(&mut app, &[9; 11], 3));
    let mut text = vec![9; 11];
    text.extend_from_slice(&[0; 9]);
    assert_eq!(app.epub.ch_cache, text);
}

#[test]
fn nothing_is_loaded_without_a_cached_book() {
    let mut app = cached();
    app.epub.ch_cache = vec![1, 2, 3];
    app.is_epub = false;
    assert_eq!(app.try_cache_chapter(Event::Begin), LoadAction::Done(false));
    app.is_epub = true;
    app.epub.chapters_cached = false;
    assert_eq!(app.try_cache_chapter(Event::Begin), LoadAction::Done(false));
    app.epub.chapters_cached = true;
    app.epub.chapter = 4;
    assert_eq!(app.try_cache_chapter(Event::Begin), LoadAction::Done(false));
    assert_eq!(app.epub.ch_cache, vec![1, 2, 3]);
}

#[test]
fn empty_and_large_chapters_are_not_kept() {
    let mut app = cached();
    app.epub.ch_cache = vec![1, 2, 3];
    app.epub.chapter_sizes[2] = 0;
    assert_eq!(app.try_cache_chapter(Event::Begin), LoadAction::Done(false));
    assert!(app.epub.ch_cache.is_empty());
    app.epub.ch_cache = vec![1, 2, 3];
    app.epub.chapter = 3;
    assert_eq!(app.try_cache_chapter(Event::Begin), LoadAction::Done(false));
    assert!(app.epub.ch_cache.is_empty());
    // one byte less is small enough
    app.epub.chapter_sizes[3] = 64;
    assert_eq!(app.try_cache_chapter(Event::Begin), LoadAction::Reserve { size: 64 });
    assert_eq!(
        app.try_cache_chapter(reserved(64)),
        LoadAction::ReadChunk { dir: "_ABCD".to_string(), ch: 3, offset: 0, len: 8 }
    );
    assert_eq!(app.epub.ch_cache, vec![0; 64]);
}

#[test]
fn text_of_the_right_length_is_reused() {
    let mut app = cached();
    app.epub.ch_cache = vec![9; 20];
    assert_eq!(app.try_cache_chapter(Event::Begin), LoadAction::Done(true));
    assert_eq!(app.epub.ch_cache, vec![9; 20]);
}

#[test]
fn chapter_is_read_in_chunks() {
    let mut app = cached();
    app.epub.ch_cache = vec![5; 7];
    assert_eq!(app.try_cache_chapter(Event::Begin), LoadAction::Reserve { size: 20 });
    assert!(app.epub.ch_cache.is_empty());
    assert_eq!(app.try_cache_chapter(reserved(20)), chunk(0, 8));
    assert_eq!(app.epub.ch_cache, vec![0; 20]);
    assert_eq!(app.try_cache_chapter(read(0, &[1; 8], 8)), chunk(8, 8));
    assert_eq!(app.try_cache_chapter(read(8, &[2; 8], 5)), chunk(13, 7));
    assert_eq!(app.try_cache_chapter(read(13, &[3; 7], 7)), LoadAction::Done(true));
    let mut text = vec![1; 8];
    text.extend_from_slice(&[2; 5]);
    text.extend_from_slice(&[3; 7]);
    assert_eq!(app.epub.ch_cache, text);
}

#[test]
fn loaded_text_is_the_file() {
    let file: Vec<u8> = (50..80).collect();
    for most in 1..9 {
        let mut app = cached();
        assert!(load(&mut app, &file, most));
        assert_eq!(app.epub.ch_cache, file[..20].to_vec());
        // and it is not read again
        assert_eq!(app.try_cache_chapter(Event::Begin), LoadAction::Done(true));
    }
}

#[test]
fn short_file_ends_the_load() {
    let mut app = cached();
    app.try_cache_chapter(Event::Begin);
    app.try_cache_chapter(reserved(20));
    app.try_cache_chapter(read(0, &[1; 8], 8));
    assert_eq!(app.try_cache_chapter(read(8, &[0; 8], 0)), LoadAction::Done(true));
    let mut text = vec![1; 8];
    text.extend_from_slice(&[0; 12]);
    assert_eq!(app.epub.ch_cache, text);
}

#[test]
fn read_that_claims_too_much_ends_the_load() {
    let mut app = cached();
    app.try_cache_chapter(Event::Begin);
    app.try_cache_chapter(reserved(20));
    assert_eq!(app.try_cache_chapter(read(0, &[1; 8], 100)), LoadAction::Done(true));
}

#[test]
fn failed_read_drops_the_text() {
    let mut app = cached();
    app.try_cache_chapter(Event::Begin);
    app.try_cache_chapter(reserved(20));
    app.try_cache_chapter(read(0, &[1; 8], 8));
    let failed = Event::ChunkRead { offset: 8, buf: vec![0; 8], read: Err("no card") };
    assert_eq!(app.try_cache_chapter(failed), LoadAction::Done(false));
    assert!(app.epub.ch_cache.is_empty());
}

#[test]
fn chapter_without_memory_is_not_loaded() {
    let mut app = cached();
    app.epub.ch_cache = vec![5; 7];
    assert_eq!(app.try_cache_chapter(Event::Begin), LoadAction::Reserve { size: 20 });
    assert_eq!(app.try_cache_chapter(Event::Reserved(None)), LoadAction::Done(false));
    assert!(app.epub.ch_cache.is_empty());
    assert_eq!(app.try_cache_chapter(Event::Begin), LoadAction::Reserve { size: 20 });
}

#[test]
fn memory_is_reserved_by_size() {
    let room = reserve(5).unwrap();
    assert_eq!(room.size(), 5);
    assert_eq!(room.into_zeros(), vec![0; 5]);
    // room for nothing is always there, and room for everything never
    assert_eq!(reserve(0).unwrap().into_zeros(), Vec::<u8>::new());
    assert!(reserve(usize::MAX).is_none());
}
